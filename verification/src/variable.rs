use vstd::prelude::*;

use crate::account::Account;
use crate::contract::{auth_only, no_effects, same_config, same_state, VestingDrips};
use crate::effects::{deposit, make_deposit, make_payout, payout, Effect, Event, Outcome};
use crate::error::VestingError;
use crate::fixed::in_i128;
use crate::types::{RateSegment, VariableRateSchedule, MAX_SEGMENTS};

verus! {

/// The length of `[from, to) ∩ [lo, hi)`, computed as the claim code does:
/// from `max(from, lo)` to `min(to, hi)`, or 0 when that is empty.
pub open spec fn overlap(from: int, to: int, lo: int, hi: int) -> int {
    let os = if from > lo { from } else { lo };
    let oe = if to < hi { to } else { hi };
    if oe > os { oe - os } else { 0 }
}

/// Tokens accrued over `[from, to)` by the segments from index `i` on, the
/// segment `i` starting at `seg_start` and each later one where its
/// predecessor ends; the walk stops after the first segment that reaches `to`.
pub open spec fn accrual(segs: Seq<RateSegment>, i: int, from: int, to: int, seg_start: int) -> int
    decreases segs.len() - i,
{
    if i < 0 || i >= segs.len() {
        0
    } else {
        let here = overlap(from, to, seg_start, segs[i].end_ledger as int) * segs[i].rate;
        if segs[i].end_ledger >= to {
            here
        } else {
            here + accrual(segs, i + 1, from, to, segs[i].end_ledger as int)
        }
    }
}

/// Whether adding up [`accrual`] onto `acc`, one segment at a time, stays
/// within `i128`.
pub open spec fn accrual_fits(segs: Seq<RateSegment>, i: int, from: int, to: int, seg_start: int, acc: int) -> bool
    decreases segs.len() - i,
{
    if i < 0 || i >= segs.len() {
        true
    } else {
        let here = overlap(from, to, seg_start, segs[i].end_ledger as int) * segs[i].rate;
        &&& i128::MIN <= here <= i128::MAX
        &&& i128::MIN <= acc + here <= i128::MAX
        &&& (segs[i].end_ledger >= to || accrual_fits(segs, i + 1, from, to, segs[i].end_ledger as int, acc + here))
    }
}

/// Computes the tokens a variable-rate stream accrues over
/// `[from_ledger, to_ledger)`: for each segment, its rate times the part of
/// the window it covers (see [`accrual`]).
pub fn compute_variable_claimable(
    segments: &Vec<RateSegment>,
    from_ledger: u32,
    to_ledger: u32,
    start_ledger: u32,
) -> (total: i128)
    requires
        accrual_fits(segments@, 0, from_ledger as int, to_ledger as int, start_ledger as int, 0),
    ensures
        total == accrual(segments@, 0, from_ledger as int, to_ledger as int, start_ledger as int),
{
    let ghost segs = segments@;
    let ghost whole = accrual(segs, 0, from_ledger as int, to_ledger as int, start_ledger as int);
    let mut total: i128 = 0;
    let mut seg_start = start_ledger;
    let n = segments.len();
    let mut i: usize = 0;
    while i < n
        invariant
            segs == segments@,
            n == segs.len(),
            i <= n,
            total + accrual(segs, i as int, from_ledger as int, to_ledger as int, seg_start as int) == whole,
            accrual_fits(segs, i as int, from_ledger as int, to_ledger as int, seg_start as int, total as int),
        ensures
            total == whole,
        decreases n - i,
    {
        let seg = segments[i];
        let seg_end = seg.end_ledger;
        let overlap_start = if from_ledger > seg_start { from_ledger } else { seg_start };
        let overlap_end = if to_ledger < seg_end { to_ledger } else { seg_end };
        if overlap_end > overlap_start {
            let ledgers = (overlap_end - overlap_start) as i128;
            total = total + ledgers * seg.rate;
        }
        seg_start = seg_end;
        if seg_start >= to_ledger {
            break;
        }
        i = i + 1;
    }
    total
}

/// [`compute_variable_claimable`], or `None` when its arithmetic would
/// overflow (exactly when [`accrual_fits`] fails).
pub fn checked_variable_claimable(
    segments: &Vec<RateSegment>,
    from_ledger: u32,
    to_ledger: u32,
    start_ledger: u32,
) -> (r: Option<i128>)
    ensures
        r is Some <==> accrual_fits(segments@, 0, from_ledger as int, to_ledger as int, start_ledger as int, 0),
        r matches Some(v) ==> v == accrual(segments@, 0, from_ledger as int, to_ledger as int, start_ledger as int),
{
    let ghost segs = segments@;
    let ghost whole = accrual(segs, 0, from_ledger as int, to_ledger as int, start_ledger as int);
    let ghost fits0 = accrual_fits(segs, 0, from_ledger as int, to_ledger as int, start_ledger as int, 0);
    let mut total: i128 = 0;
    let mut seg_start = start_ledger;
    let n = segments.len();
    let mut i: usize = 0;
    while i < n
        invariant
            segs == segments@,
            n == segs.len(),
            i <= n,
            total + accrual(segs, i as int, from_ledger as int, to_ledger as int, seg_start as int) == whole,
            fits0 == accrual_fits(segs, 0, from_ledger as int, to_ledger as int, start_ledger as int, 0),
            accrual_fits(segs, i as int, from_ledger as int, to_ledger as int, seg_start as int, total as int) == fits0,
        ensures
            fits0 && total == whole,
        decreases n - i,
    {
        let seg = segments[i];
        let seg_end = seg.end_ledger;
        let overlap_start = if from_ledger > seg_start { from_ledger } else { seg_start };
        let overlap_end = if to_ledger < seg_end { to_ledger } else { seg_end };
        let ghost here = overlap(from_ledger as int, to_ledger as int, seg_start as int, seg_end as int) * seg.rate;
        assert(seg == segs[i as int]);
        if overlap_end > overlap_start {
            let ledgers = (overlap_end - overlap_start) as i128;
            let amount = match ledgers.checked_mul(seg.rate) {
                Some(v) => v,
                None => {
                    assert(!accrual_fits(segs, i as int, from_ledger as int, to_ledger as int, seg_start as int, total as int));
                    return None;
                },
            };
            total = match total.checked_add(amount) {
                Some(v) => v,
                None => {
                    assert(!accrual_fits(segs, i as int, from_ledger as int, to_ledger as int, seg_start as int, total as int));
                    return None;
                },
            };
        }
        seg_start = seg_end;
        if seg_start >= to_ledger {
            break;
        }
        i = i + 1;
    }
    Some(total)
}

/// Tokens accrued over `[from, to)` by every segment from index `i` on (no
/// early stop).
pub open spec fn span(segs: Seq<RateSegment>, i: int, from: int, to: int, seg_start: int) -> int
    decreases segs.len() - i,
{
    if i < 0 || i >= segs.len() {
        0
    } else {
        overlap(from, to, seg_start, segs[i].end_ledger as int) * segs[i].rate
            + span(segs, i + 1, from, to, segs[i].end_ledger as int)
    }
}

/// The ledger at which segment `i` starts: the stream start for the first.
pub open spec fn seg_begin(segs: Seq<RateSegment>, i: int, start: int) -> int {
    if i == 0 { start } else { segs[i - 1].end_ledger as int }
}

/// The end ledgers are strictly ascending, and the first lies above `start`;
/// rates may be anything.
pub open spec fn ends_ascending(segs: Seq<RateSegment>, start: int) -> bool {
    &&& segs.len() > 0 ==> start < segs[0].end_ledger
    &&& forall|i: int, j: int| 0 <= i < j < segs.len() ==> #[trigger] segs[i].end_ledger < #[trigger] segs[j].end_ledger
}

/// The segments form a stepped schedule from `start`: at least one, end
/// ledgers strictly ascending from above `start`, every rate positive.
pub open spec fn segments_sorted(segs: Seq<RateSegment>, start: int) -> bool {
    &&& segs.len() > 0
    &&& start < segs[0].end_ledger
    &&& forall|i: int, j: int| 0 <= i < j < segs.len() ==> #[trigger] segs[i].end_ledger < #[trigger] segs[j].end_ledger
    &&& forall|i: int| 0 <= i < segs.len() ==> #[trigger] segs[i].rate > 0
}

/// The deposit of a stepped schedule: each rate times its segment's length.
pub open spec fn deposit_of(segs: Seq<RateSegment>, i: int, seg_start: int) -> int
    decreases segs.len() - i,
{
    if i < 0 || i >= segs.len() {
        0
    } else {
        segs[i].rate * (segs[i].end_ledger - seg_start) + deposit_of(segs, i + 1, segs[i].end_ledger as int)
    }
}

/// Splitting the window at `b` splits each segment's part of it.
pub proof fn lemma_overlap_split(a: int, b: int, c: int, lo: int, hi: int)
    requires
        a <= b <= c,
    ensures
        overlap(a, c, lo, hi) == overlap(a, b, lo, hi) + overlap(b, c, lo, hi),
        overlap(a, b, lo, hi) >= 0,
{
}

/// Law: accrual over `[a, c)` is accrual over `[a, b)` plus over `[b, c)`.
pub proof fn lemma_span_split(segs: Seq<RateSegment>, i: int, a: int, b: int, c: int, seg_start: int)
    requires
        a <= b <= c,
        0 <= i,
    ensures
        span(segs, i, a, c, seg_start) == span(segs, i, a, b, seg_start) + span(segs, i, b, c, seg_start),
    decreases segs.len() - i,
{
    if i < segs.len() {
        let hi = segs[i].end_ledger as int;
        let r = segs[i].rate as int;
        lemma_overlap_split(a, b, c, seg_start, hi);
        let x = overlap(a, b, seg_start, hi);
        let y = overlap(b, c, seg_start, hi);
        assert((x + y) * r == x * r + y * r) by (nonlinear_arith);
        lemma_span_split(segs, i + 1, a, b, c, hi);
    }
}

/// With positive rates from `i` on, accrual is never negative.
pub proof fn lemma_span_nonneg(segs: Seq<RateSegment>, i: int, from: int, to: int, seg_start: int)
    requires
        0 <= i,
        forall|k: int| i <= k < segs.len() ==> #[trigger] segs[k].rate > 0,
    ensures
        span(segs, i, from, to, seg_start) >= 0,
        accrual(segs, i, from, to, seg_start) >= 0,
    decreases segs.len() - i,
{
    if i < segs.len() {
        let x = overlap(from, to, seg_start, segs[i].end_ledger as int);
        let r = segs[i].rate as int;
        assert(x * r >= 0) by (nonlinear_arith)
            requires x >= 0, r > 0;
        lemma_span_nonneg(segs, i + 1, from, to, segs[i].end_ledger as int);
    }
}

/// Segments that start at or after `to` accrue nothing over a window ending at `to`.
pub proof fn lemma_span_past(segs: Seq<RateSegment>, i: int, start: int, from: int, to: int)
    requires
        ends_ascending(segs, start),
        0 <= i <= segs.len(),
        seg_begin(segs, i, start) >= to || i == segs.len(),
    ensures
        span(segs, i, from, to, seg_begin(segs, i, start)) == 0,
    decreases segs.len() - i,
{
    if i < segs.len() {
        assert(seg_begin(segs, i, start) < segs[i].end_ledger) by {
            if i > 0 {
                assert(segs[i - 1].end_ledger < segs[i].end_ledger);
            }
        }
        assert(seg_begin(segs, i + 1, start) == segs[i].end_ledger);
        lemma_span_past(segs, i + 1, start, from, to);
    }
}

/// With ascending end ledgers, whatever the rates, the early stop of
/// [`accrual`] loses nothing.
pub proof fn lemma_accrual_is_span(segs: Seq<RateSegment>, i: int, start: int, from: int, to: int)
    requires
        ends_ascending(segs, start),
        0 <= i <= segs.len(),
    ensures
        accrual(segs, i, from, to, seg_begin(segs, i, start)) == span(segs, i, from, to, seg_begin(segs, i, start)),
    decreases segs.len() - i,
{
    if i < segs.len() {
        assert(seg_begin(segs, i + 1, start) == segs[i].end_ledger);
        if segs[i].end_ledger >= to {
            lemma_span_past(segs, i + 1, start, from, to);
        } else {
            lemma_accrual_is_span(segs, i + 1, start, from, to);
        }
    }
}

/// For a stepped schedule, accruing over the whole schedule gives its deposit.
pub proof fn lemma_span_whole(segs: Seq<RateSegment>, i: int, start: int)
    requires
        segments_sorted(segs, start),
        0 <= i <= segs.len(),
    ensures
        span(segs, i, start, segs.last().end_ledger as int, seg_begin(segs, i, start))
            == deposit_of(segs, i, seg_begin(segs, i, start)),
    decreases segs.len() - i,
{
    if i < segs.len() {
        let lo = seg_begin(segs, i, start);
        let hi = segs[i].end_ledger as int;
        let last = segs.last().end_ledger as int;
        assert(lo < hi) by {
            if i > 0 {
                assert(segs[i - 1].end_ledger < segs[i].end_ledger);
            }
        }
        assert(start <= lo) by {
            if i > 0 {
                assert(segs[0].end_ledger <= segs[i - 1].end_ledger) by {
                    if i - 1 > 0 {
                        assert(segs[0].end_ledger < segs[i - 1].end_ledger);
                    }
                }
            }
        }
        assert(hi <= last) by {
            if i < segs.len() - 1 {
                assert(segs[i].end_ledger < segs[segs.len() - 1].end_ledger);
            }
        }
        assert(overlap(start, last, lo, hi) == hi - lo);
        let r = segs[i].rate as int;
        assert((hi - lo) * r == r * (hi - lo)) by (nonlinear_arith);
        assert(seg_begin(segs, i + 1, start) == hi);
        lemma_span_whole(segs, i + 1, start);
    }
}

/// Law: over a window inside a stepped schedule, accrual is what accrues
/// from the start up to the window's end minus what accrued before it.
pub proof fn lemma_window(segs: Seq<RateSegment>, start: int, from: int, to: int)
    requires
        segments_sorted(segs, start),
        start <= from <= to,
    ensures
        accrual(segs, 0, from, to, start) == span(segs, 0, start, to, start) - span(segs, 0, start, from, start),
        span(segs, 0, start, from, start) >= 0,
        accrual(segs, 0, from, to, start) >= 0,
{
    lemma_accrual_is_span(segs, 0, start, from, to);
    lemma_span_split(segs, 0, start, from, to, start);
    lemma_span_nonneg(segs, 0, start, from, start);
    lemma_span_nonneg(segs, 0, from, to, start);
}

/// Law: accrual from the start is monotone in the window's end and never
/// exceeds the deposit.
pub proof fn lemma_span_bounded(segs: Seq<RateSegment>, start: int, t: int)
    requires
        segments_sorted(segs, start),
        start <= t <= segs.last().end_ledger,
    ensures
        0 <= span(segs, 0, start, t, start) <= deposit_of(segs, 0, start),
{
    let last = segs.last().end_ledger as int;
    lemma_span_split(segs, 0, start, t, last, start);
    lemma_span_nonneg(segs, 0, start, t, start);
    lemma_span_nonneg(segs, 0, t, last, start);
    lemma_span_whole(segs, 0, start);
}

/// Adding up non-negative terms whose total stays within `i128` never
/// leaves `i128` on the way.
pub proof fn lemma_fits(segs: Seq<RateSegment>, i: int, from: int, to: int, seg_start: int, acc: int)
    requires
        0 <= i,
        0 <= acc,
        acc + accrual(segs, i, from, to, seg_start) <= i128::MAX,
        forall|k: int| 0 <= k < segs.len() ==> #[trigger] segs[k].rate > 0,
    ensures
        accrual_fits(segs, i, from, to, seg_start, acc),
    decreases segs.len() - i,
{
    if i < segs.len() {
        let x = overlap(from, to, seg_start, segs[i].end_ledger as int);
        let r = segs[i].rate as int;
        assert(x * r >= 0) by (nonlinear_arith)
            requires x >= 0, r > 0;
        if segs[i].end_ledger < to {
            lemma_span_nonneg(segs, i + 1, from, to, segs[i].end_ledger as int);
            lemma_fits(segs, i + 1, from, to, segs[i].end_ledger as int, acc + x * r);
        }
    }
}

/// The stored form of the `(end_ledger, rate)` pairs.
pub open spec fn to_segments(segs: Seq<(u32, i128)>) -> Seq<RateSegment> {
    Seq::new(segs.len(), |i: int| RateSegment { end_ledger: segs[i].0, rate: segs[i].1 })
}

/// Checks the `(end_ledger, rate)` pairs from index `i` on, the previous
/// segment ending at `prev`, while adding up the deposit onto `acc`: each
/// rate must be positive (else `InvalidSegments`), each end ledger above the
/// previous one (else `InvalidSegments`), and each segment's deposit and the
/// running sum must fit in `i128` (else `DepositOverflow`). Gives the deposit.
pub open spec fn segment_walk(segs: Seq<(u32, i128)>, i: int, prev: int, acc: int) -> Result<int, VestingError>
    decreases segs.len() - i,
{
    if i < 0 || i >= segs.len() {
        Ok(acc)
    } else {
        let e = segs[i].0 as int;
        let r = segs[i].1 as int;
        if r <= 0 {
            Err(VestingError::InvalidSegments)
        } else if e <= prev {
            Err(VestingError::InvalidSegments)
        } else if r * (e - prev) > i128::MAX {
            Err(VestingError::DepositOverflow)
        } else if acc + r * (e - prev) > i128::MAX {
            Err(VestingError::DepositOverflow)
        } else {
            segment_walk(segs, i + 1, e, acc + r * (e - prev))
        }
    }
}

/// The first check of variable-stream creation that fails, if any (every
/// check precedes the sponsor's authorisation).
pub open spec fn variable_create_check(
    st: &VestingDrips,
    sponsor: Account,
    recipient: Account,
    cliff_duration: u32,
    segments: Seq<(u32, i128)>,
    now: u32,
) -> Option<VestingError> {
    if sponsor == recipient {
        Some(VestingError::InvalidRecipient)
    } else if st.variable_schedules@.contains_key(recipient) || st.schedules@.contains_key(recipient) {
        Some(VestingError::ScheduleAlreadyExists)
    } else if segments.len() == 0 || segments.len() > MAX_SEGMENTS {
        Some(VestingError::InvalidSegments)
    } else if now + cliff_duration > u32::MAX {
        Some(VestingError::DepositOverflow)
    } else {
        match segment_walk(segments, 0, now as int, 0) {
            Err(e) => Some(e),
            Ok(_) => None,
        }
    }
}

impl VariableRateSchedule {
    /// The invariant every variable-rate schedule written by the contract
    /// keeps: a stepped schedule from `start_ledger` ending at `end_ledger`,
    /// whose deposit is recorded in `total_deposited`, with exactly the
    /// accrual before the claim cursor paid out.
    pub open spec fn sound(self) -> bool {
        let segs = self.segments@;
        let start = self.start_ledger as int;
        &&& segments_sorted(segs, start)
        &&& self.end_ledger == segs.last().end_ledger
        &&& self.start_ledger <= self.last_claimed_ledger <= self.end_ledger
        &&& self.total_deposited == deposit_of(segs, 0, start)
        &&& self.claimed_amount == span(segs, 0, start, self.last_claimed_ledger as int, start)
        &&& self.total_claimed == self.claimed_amount
    }

    /// Tokens the stream owes at `now`: nothing before the cliff, the whole
    /// unpaid rest at or after the end, else the accrual since the last claim.
    pub open spec fn owed_at(self, now: u32) -> int {
        if now < self.cliff_ledger {
            0
        } else if now >= self.end_ledger {
            self.total_deposited - self.claimed_amount
        } else {
            accrual(self.segments@, 0, self.last_claimed_ledger as int, now as int, self.start_ledger as int)
        }
    }

    /// Whether, past the cliff, what is owed at `now` can be computed without
    /// overflow: the unpaid rest at or after the end, else the accrual since
    /// the claim cursor.
    pub open spec fn owed_defined(self, now: u32) -> bool {
        &&& now >= self.end_ledger ==> in_i128(self.total_deposited - self.claimed_amount)
        &&& now < self.end_ledger ==> accrual_fits(
            self.segments@,
            0,
            self.last_claimed_ledger as int,
            now as int,
            self.start_ledger as int,
            0,
        )
    }

    /// Whether a claim at `now` computes without overflow: what is owed, and
    /// both claim counters once it is added.
    pub open spec fn claim_defined(self, now: u32) -> bool {
        &&& self.owed_defined(now)
        &&& in_i128(self.total_claimed + self.owed_at(now))
        &&& in_i128(self.claimed_amount + self.owed_at(now))
    }

    /// Whether [`VariableRateSchedule::owed_defined`] holds at `now`.
    pub fn is_owed_defined(&self, now: u32) -> (b: bool)
        ensures
            b == self.owed_defined(now),
    {
        if now >= self.end_ledger {
            self.total_deposited.checked_sub(self.claimed_amount).is_some()
        } else {
            checked_variable_claimable(&self.segments, self.last_claimed_ledger, now, self.start_ledger).is_some()
        }
    }

    /// Whether [`VariableRateSchedule::claim_defined`] holds at `now`.
    pub fn is_claim_defined(&self, now: u32) -> (b: bool)
        ensures
            b == self.claim_defined(now),
    {
        if !self.is_owed_defined(now) {
            return false;
        }
        let c = self.owed(now);
        self.total_claimed.checked_add(c).is_some() && self.claimed_amount.checked_add(c).is_some()
    }

    /// Tokens owed at `now` (see [`VariableRateSchedule::owed_at`]).
    pub fn owed(&self, now: u32) -> (a: i128)
        requires
            now >= self.cliff_ledger ==> self.owed_defined(now),
        ensures
            a == self.owed_at(now),
    {
        if now < self.cliff_ledger {
            0
        } else if now >= self.end_ledger {
            self.total_deposited - self.claimed_amount
        } else {
            compute_variable_claimable(&self.segments, self.last_claimed_ledger, now, self.start_ledger)
        }
    }
}

/// The schedule a successful variable-stream creation stores.
pub open spec fn new_variable_schedule(
    token: Account,
    sponsor: Account,
    cliff_duration: u32,
    segments: Seq<(u32, i128)>,
    total: int,
    now: u32,
) -> VariableRateSchedule {
    VariableRateSchedule {
        token,
        sponsor,
        segments: arbitrary(),
        start_ledger: now,
        cliff_ledger: (now + cliff_duration) as u32,
        end_ledger: segments.last().0,
        total_deposited: total as i128,
        last_claimed_ledger: now,
        claimed_amount: 0,
        total_claimed: 0,
        paused_at_ledger: None,
    }
}

/// `s` is the schedule [`new_variable_schedule`] describes, holding the
/// given segments.
pub open spec fn is_new_variable_schedule(
    s: VariableRateSchedule,
    token: Account,
    sponsor: Account,
    cliff_duration: u32,
    segments: Seq<(u32, i128)>,
    total: int,
    now: u32,
) -> bool {
    &&& s.segments@ == to_segments(segments)
    &&& (VariableRateSchedule { segments: arbitrary(), ..s })
        == new_variable_schedule(token, sponsor, cliff_duration, segments, total, now)
}

/// The first check of `claim_variable_vested` that fails, if any.
pub open spec fn variable_claim_check(st: &VestingDrips, recipient: Account, now: u32) -> Option<VestingError> {
    if !st.variable_schedules@.contains_key(recipient) {
        Some(VestingError::ScheduleNotFound)
    } else if now < st.variable_schedules@[recipient].cliff_ledger {
        Some(VestingError::CliffNotReached)
    } else if st.variable_schedules@[recipient].owed_at(now) == 0 {
        Some(VestingError::NothingToClaim)
    } else {
        None
    }
}

/// The variable-rate schedule after a claim at `now`.
pub open spec fn claimed_variable_schedule(s: VariableRateSchedule, now: u32) -> VariableRateSchedule {
    let c = s.owed_at(now);
    VariableRateSchedule {
        last_claimed_ledger: if now < s.end_ledger { now } else { s.end_ledger },
        total_claimed: (s.total_claimed + c) as i128,
        claimed_amount: (s.claimed_amount + c) as i128,
        ..s
    }
}

impl VestingDrips {
    /// Creates a variable-rate stream from `(end_ledger, rate)` segments: the
    /// first segment runs from `current_ledger`, each later one from where
    /// its predecessor ends, and the deposit is the sum of rate times length.
    ///
    /// Fails with `InvalidRecipient`, `ScheduleAlreadyExists` (a fixed-rate or
    /// variable-rate stream exists), `InvalidSegments` (none, more than 10, a
    /// non-positive rate, or end ledgers not strictly ascending) or
    /// `DepositOverflow`, in the order of [`variable_create_check`].
    #[verifier::spinoff_prover]
    pub fn create_variable_stream(
        &mut self,
        sponsor: Account,
        recipient: Account,
        token: Account,
        cliff_duration: u32,
        segments: Vec<(u32, i128)>,
        current_ledger: u32,
    ) -> (r: Outcome<()>)
        ensures
            variable_create_check(old(self), sponsor, recipient, cliff_duration, segments@, current_ledger) matches Some(e)
                ==> r.result == Err::<(), VestingError>(e) && r.effects@ == Seq::<Effect>::empty()
                && same_state(final(self), old(self)),
            variable_create_check(old(self), sponsor, recipient, cliff_duration, segments@, current_ledger) is None ==> ({
                let total = segment_walk(segments@, 0, current_ledger as int, 0)->Ok_0;
                let s = final(self).variable_schedules@[recipient];
                &&& r.result == Ok::<(), VestingError>(())
                &&& r.effects@ == seq![
                    Effect::RequireAuth(sponsor),
                    Effect::TryTransfer(deposit(token, sponsor, total as i128)),
                    Effect::Emit(Event::VariableStreamCreated {
                        sponsor,
                        recipient,
                        token,
                        start_ledger: current_ledger,
                        cliff_ledger: (current_ledger + cliff_duration) as u32,
                        end_ledger: segments@.last().0,
                        total_deposited: total as i128,
                    }),
                ]
                &&& final(self).variable_schedules@ == old(self).variable_schedules@.insert(recipient, s)
                &&& is_new_variable_schedule(s, token, sponsor, cliff_duration, segments@, total, current_ledger)
                &&& s.sound()
                &&& same_config(final(self), old(self))
                &&& final(self).schedules@ == old(self).schedules@
                &&& final(self).milestone_schedules@ == old(self).milestone_schedules@
            }),
    {
        if sponsor == recipient {
            return Outcome { effects: no_effects(), result: Err(VestingError::InvalidRecipient) };
        }
        if self.variable_schedules.contains_key(&recipient) || self.schedules.contains_key(&recipient) {
            return Outcome { effects: no_effects(), result: Err(VestingError::ScheduleAlreadyExists) };
        }
        let n = segments.len();
        if n == 0 || n > MAX_SEGMENTS as usize {
            return Outcome { effects: no_effects(), result: Err(VestingError::InvalidSegments) };
        }
        let start_ledger = current_ledger;
        let cliff_ledger = match start_ledger.checked_add(cliff_duration) {
            Some(v) => v,
            None => return Outcome { effects: no_effects(), result: Err(VestingError::DepositOverflow) },
        };
        let ghost segs = segments@;
        let ghost out_segs = to_segments(segs);
        let ghost start = start_ledger as int;
        let mut prev_end: u32 = start_ledger;
        let mut total_deposit: i128 = 0;
        let mut rate_segments: Vec<RateSegment> = Vec::new();
        let mut i: usize = 0;
        while i < n
            invariant
                same_state(self, old(self)),
                sponsor != recipient,
                !old(self).variable_schedules@.contains_key(recipient),
                !old(self).schedules@.contains_key(recipient),
                current_ledger + cliff_duration <= u32::MAX,
                cliff_ledger == current_ledger + cliff_duration,
                start_ledger == current_ledger,
                segs == segments@,
                out_segs == to_segments(segs),
                n == segs.len(),
                0 < n <= MAX_SEGMENTS,
                i <= n,
                start == start_ledger as int,
                segment_walk(segs, 0, start, 0) == segment_walk(segs, i as int, prev_end as int, total_deposit as int),
                prev_end as int == seg_begin(out_segs, i as int, start),
                total_deposit + deposit_of(out_segs, i as int, prev_end as int) == deposit_of(out_segs, 0, start),
                total_deposit >= 0,
                rate_segments@ == out_segs.take(i as int),
                i > 0 ==> start < out_segs[0].end_ledger,
                forall|a: int, b: int| 0 <= a < b < i ==> #[trigger] out_segs[a].end_ledger < #[trigger] out_segs[b].end_ledger,
                forall|a: int| 0 <= a < i ==> #[trigger] out_segs[a].rate > 0,
                forall|a: int| 0 <= a < i ==> #[trigger] out_segs[a].end_ledger <= prev_end,
            decreases n - i,
        {
            let (seg_end, rate) = segments[i];
            assert(out_segs[i as int] == RateSegment { end_ledger: seg_end, rate });
            if rate <= 0 {
                return Outcome { effects: no_effects(), result: Err(VestingError::InvalidSegments) };
            }
            if seg_end <= prev_end {
                return Outcome { effects: no_effects(), result: Err(VestingError::InvalidSegments) };
            }
            let duration = (seg_end - prev_end) as i128;
            let seg_deposit = match rate.checked_mul(duration) {
                Some(v) => v,
                None => return Outcome { effects: no_effects(), result: Err(VestingError::DepositOverflow) },
            };
            proof {
                assert(seg_deposit >= 0) by (nonlinear_arith)
                    requires seg_deposit == rate * duration, rate > 0, duration > 0;
            }
            total_deposit = match total_deposit.checked_add(seg_deposit) {
                Some(v) => v,
                None => return Outcome { effects: no_effects(), result: Err(VestingError::DepositOverflow) },
            };
            rate_segments.push(RateSegment { end_ledger: seg_end, rate });
            prev_end = seg_end;
            i = i + 1;
            proof {
                assert(rate_segments@ =~= out_segs.take(i as int));
            }
        }
        proof {
            assert(rate_segments@ =~= out_segs);
            assert(segs.last().0 == out_segs.last().end_ledger);
            assert(prev_end == out_segs.last().end_ledger);
        }
        let end_ledger = prev_end;

        let mut effects = auth_only(sponsor);
        effects.push(Effect::TryTransfer(make_deposit(token, sponsor, total_deposit)));
        let schedule = VariableRateSchedule {
            token,
            sponsor,
            segments: rate_segments,
            start_ledger,
            cliff_ledger,
            end_ledger,
            total_deposited: total_deposit,
            last_claimed_ledger: start_ledger,
            claimed_amount: 0,
            total_claimed: 0,
            paused_at_ledger: None,
        };
        proof {
            assert(span(schedule.segments@, 0, start, start, start) == 0) by {
                lemma_span_bounded(schedule.segments@, start, start);
                lemma_span_split(schedule.segments@, 0, start, start, start, start);
            }
        }
        self.variable_schedules.insert(recipient, schedule);
        effects.push(Effect::Emit(Event::VariableStreamCreated {
            sponsor,
            recipient,
            token,
            start_ledger,
            cliff_ledger,
            end_ledger,
            total_deposited: total_deposit,
        }));
        Outcome { effects, result: Ok(()) }
    }

    /// Claims every token the recipient's variable-rate stream owes at
    /// `current_ledger` (see [`VariableRateSchedule::owed_at`]); a fully paid
    /// stream is removed.
    ///
    /// Fails with `ScheduleNotFound`, `CliffNotReached` or `NothingToClaim`.
    pub fn claim_variable_vested(&mut self, recipient: Account, current_ledger: u32) -> (r: Outcome<i128>)
        requires
            old(self).variable_schedules@.contains_key(recipient)
                && current_ledger >= old(self).variable_schedules@[recipient].cliff_ledger
                ==> old(self).variable_schedules@[recipient].claim_defined(current_ledger),
        ensures
            variable_claim_check(old(self), recipient, current_ledger) matches Some(e)
                ==> r.result == Err::<i128, VestingError>(e) && r.effects@ == seq![Effect::RequireAuth(recipient)]
                && same_state(final(self), old(self)),
            variable_claim_check(old(self), recipient, current_ledger) is None ==> ({
                let s = old(self).variable_schedules@[recipient];
                let c = s.owed_at(current_ledger) as i128;
                let s2 = claimed_variable_schedule(s, current_ledger);
                let done = s2.claimed_amount >= s.total_deposited;
                &&& r.result == Ok::<i128, VestingError>(c)
                &&& r.effects@ == seq![Effect::RequireAuth(recipient), Effect::TryTransfer(payout(s.token, recipient, c))]
                    + (if done { seq![Effect::Emit(Event::StreamCompleted { recipient, token: s.token })] } else { Seq::empty() })
                    + seq![Effect::Emit(Event::VariableTokensClaimed {
                        recipient,
                        amount: c,
                        ledger_claimed_through: s2.last_claimed_ledger,
                    })]
                &&& done ==> final(self).variable_schedules@ == old(self).variable_schedules@.remove(recipient)
                &&& !done ==> final(self).variable_schedules@ == old(self).variable_schedules@.insert(recipient, s2)
                &&& same_config(final(self), old(self))
                &&& final(self).schedules@ == old(self).schedules@
                &&& final(self).milestone_schedules@ == old(self).milestone_schedules@
            }),
    {
        let mut effects = auth_only(recipient);
        let s = match self.variable_schedules.get(&recipient) {
            Some(s) => s,
            None => return Outcome { effects, result: Err(VestingError::ScheduleNotFound) },
        };
        if current_ledger < s.cliff_ledger {
            return Outcome { effects, result: Err(VestingError::CliffNotReached) };
        }
        let claimable = s.owed(current_ledger);
        if claimable == 0 {
            return Outcome { effects, result: Err(VestingError::NothingToClaim) };
        }
        let token = s.token;
        effects.push(Effect::TryTransfer(make_payout(token, recipient, claimable)));
        let ghost base = effects@;
        let mut s = self.variable_schedules.remove(&recipient).unwrap();
        let ghost s0 = s;
        let active_end = if current_ledger < s.end_ledger { current_ledger } else { s.end_ledger };
        s.last_claimed_ledger = active_end;
        s.total_claimed = s.total_claimed + claimable;
        s.claimed_amount = s.claimed_amount + claimable;
        let finished = s.claimed_amount >= s.total_deposited;
        proof {
            assert(s == claimed_variable_schedule(s0, current_ledger));
        }
        if finished {
            effects.push(Effect::Emit(Event::StreamCompleted { recipient, token }));
        } else {
            self.variable_schedules.insert(recipient, s);
        }
        effects.push(Effect::Emit(Event::VariableTokensClaimed { recipient, amount: claimable, ledger_claimed_through: active_end }));
        proof {
            assert(effects@ =~= seq![Effect::RequireAuth(recipient), Effect::TryTransfer(payout(token, recipient, claimable))]
                + (if finished { seq![Effect::Emit(Event::StreamCompleted { recipient, token })] } else { Seq::<Effect>::empty() })
                + seq![Effect::Emit(Event::VariableTokensClaimed { recipient, amount: claimable, ledger_claimed_through: active_end })]);
        }
        Outcome { effects, result: Ok(claimable) }
    }

    /// Tokens claimable now from the recipient's variable-rate stream: zero
    /// without a stream, while paused or before the cliff; otherwise what
    /// [`VestingDrips::claim_variable_vested`] would pay.
    pub fn claimable_variable_amount(&self, recipient: Account, current_ledger: u32) -> (a: i128)
        requires
            self.variable_schedules@.contains_key(recipient)
                && self.variable_schedules@[recipient].paused_at_ledger is None
                && current_ledger >= self.variable_schedules@[recipient].cliff_ledger
                ==> self.variable_schedules@[recipient].owed_defined(current_ledger),
        ensures
            a == (if self.variable_schedules@.contains_key(recipient)
                && self.variable_schedules@[recipient].paused_at_ledger is None {
                self.variable_schedules@[recipient].owed_at(current_ledger)
            } else {
                0
            }),
    {
        let s = match self.variable_schedules.get(&recipient) {
            Some(s) => s,
            None => return 0,
        };
        if s.paused_at_ledger.is_some() {
            return 0;
        }
        if current_ledger < s.cliff_ledger {
            return 0;
        }
        s.owed(current_ledger)
    }
}

} // verus!
