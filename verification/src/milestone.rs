use vstd::prelude::*;

use crate::account::Account;
use crate::contract::{
    auth_only, effective_min_deposit, no_effects, same_config, same_state, VestingDrips,
};
use crate::effects::{deposit, make_deposit, make_payout, payout, Effect, Event, Outcome};
use crate::error::VestingError;
use crate::types::{Milestone, MilestoneSchedule, MAX_MILESTONES};

verus! {

/// Rust's integer division `a / b` (rounding toward zero) for `b > 0`.
pub open spec fn trunc_div(a: int, b: int) -> int {
    if a >= 0 { a / b } else { -((-a) / b) }
}

/// The sum of the basis points of `ms`.
pub open spec fn bps_total(ms: Seq<(u32, u32)>) -> int
    decreases ms.len(),
{
    if ms.len() == 0 {
        0
    } else {
        bps_total(ms.drop_last()) + ms.last().1
    }
}

/// The ledgers of `ms` are strictly ascending and the first is above 0.
pub open spec fn ledgers_ascending(ms: Seq<(u32, u32)>) -> bool {
    &&& ms.len() > 0 ==> ms[0].0 > 0
    &&& forall|i: int| 0 < i < ms.len() ==> ms[i - 1].0 < #[trigger] ms[i].0
}

/// A valid milestone list: 1 to 20 entries, strictly ascending ledgers
/// (starting above 0), basis points summing to exactly 10000.
pub open spec fn milestones_valid(ms: Seq<(u32, u32)>) -> bool {
    &&& 0 < ms.len() <= MAX_MILESTONES
    &&& ledgers_ascending(ms)
    &&& bps_total(ms) == 10000
}

/// The stored form of the `(ledger, bps)` pairs.
pub open spec fn to_milestones(ms: Seq<(u32, u32)>) -> Seq<Milestone> {
    Seq::new(ms.len(), |i: int| Milestone { ledger: ms[i].0, bps_unlock: ms[i].1 })
}

/// Tokens one milestone unlocks: `total * bps / 10000`, rounded toward zero.
pub open spec fn milestone_amount(total: int, bps: u32) -> int {
    trunc_div(total * bps, 10000)
}

/// Walks the milestones from index `i`, adding up the amounts of those whose
/// ledger has been reached at `now`, stopping at the first that has not.
/// Gives the index reached and the sum, or `DepositOverflow` if a product or
/// the running sum leaves `i128`.
pub open spec fn unlock_walk(total: i128, ms: Seq<Milestone>, now: u32, i: int, acc: int) -> Result<(int, int), VestingError>
    decreases ms.len() - i,
{
    if i < 0 || i >= ms.len() || now < ms[i].ledger {
        Ok((i, acc))
    } else if !(i128::MIN <= total * ms[i].bps_unlock <= i128::MAX) {
        Err(VestingError::DepositOverflow)
    } else if !(i128::MIN <= acc + milestone_amount(total as int, ms[i].bps_unlock) <= i128::MAX) {
        Err(VestingError::DepositOverflow)
    } else {
        unlock_walk(total, ms, now, i + 1, acc + milestone_amount(total as int, ms[i].bps_unlock))
    }
}

/// The sum of the amounts of milestones `from..to`.
pub open spec fn amounts_between(total: int, ms: Seq<Milestone>, from: int, to: int) -> int
    decreases to - from,
{
    if to <= from {
        0
    } else {
        amounts_between(total, ms, from, to - 1) + milestone_amount(total, ms[to - 1].bps_unlock)
    }
}

proof fn lemma_bps_total_prefix(ms: Seq<(u32, u32)>, i: int)
    requires
        0 <= i <= ms.len(),
    ensures
        bps_total(ms.take(i)) <= bps_total(ms),
        bps_total(ms.take(i)) >= 0,
    decreases ms.len() - i,
{
    if i < ms.len() {
        lemma_bps_total_prefix(ms, i + 1);
        assert(ms.take(i + 1).drop_last() =~= ms.take(i));
        lemma_bps_total_nonneg(ms.take(i));
    } else {
        assert(ms.take(i) =~= ms);
        lemma_bps_total_nonneg(ms);
    }
}

proof fn lemma_bps_total_nonneg(ms: Seq<(u32, u32)>)
    ensures
        bps_total(ms) >= 0,
    decreases ms.len(),
{
    if ms.len() > 0 {
        lemma_bps_total_nonneg(ms.drop_last());
    }
}

/// Checks a milestone list and converts it to its stored form.
///
/// Returns `InvalidMilestones` exactly when the list is not
/// [`milestones_valid`].
pub fn validate_milestones(milestones: &Vec<(u32, u32)>) -> (r: Result<Vec<Milestone>, VestingError>)
    ensures
        milestones_valid(milestones@) ==> (r matches Ok(v) && v@ == to_milestones(milestones@)),
        !milestones_valid(milestones@) ==> r == Err::<Vec<Milestone>, VestingError>(VestingError::InvalidMilestones),
{
    let n = milestones.len();
    if n == 0 || n > MAX_MILESTONES as usize {
        return Err(VestingError::InvalidMilestones);
    }
    let ghost ms = milestones@;
    let mut total_bps: u32 = 0;
    let mut prev_ledger: u32 = 0;
    let mut out: Vec<Milestone> = Vec::new();
    let mut i: usize = 0;
    while i < n
        invariant
            ms == milestones@,
            n == ms.len(),
            0 < n <= MAX_MILESTONES,
            i <= n,
            total_bps == bps_total(ms.take(i as int)),
            prev_ledger == (if i == 0 { 0 } else { ms[i - 1].0 }),
            ledgers_ascending(ms.take(i as int)),
            out@ == to_milestones(ms.take(i as int)),
        decreases n - i,
    {
        let (m_ledger, m_bps) = milestones[i];
        proof {
            assert(ms.take(i + 1).drop_last() =~= ms.take(i as int));
            assert(ms.take(i + 1).last() == ms[i as int]);
        }
        if m_ledger <= prev_ledger {
            proof {
                if i == 0 {
                    assert(ms[0].0 == 0);
                } else {
                    assert(ms[i as int - 1].0 >= ms[i as int].0);
                }
                assert(!ledgers_ascending(ms));
            }
            return Err(VestingError::InvalidMilestones);
        }
        total_bps = match total_bps.checked_add(m_bps) {
            Some(t) => t,
            None => {
                proof {
                    lemma_bps_total_prefix(ms, i + 1);
                }
                return Err(VestingError::InvalidMilestones);
            },
        };
        prev_ledger = m_ledger;
        out.push(Milestone { ledger: m_ledger, bps_unlock: m_bps });
        i = i + 1;
        proof {
            let t = ms.take(i as int);
            assert forall|j: int| 0 < j < t.len() implies t[j - 1].0 < #[trigger] t[j].0 by {
                if j < i - 1 {
                    assert(ms.take(i - 1)[j] == t[j]);
                    assert(ms.take(i - 1)[j - 1] == t[j - 1]);
                }
            }
            assert(out@ =~= to_milestones(t));
        }
    }
    proof {
        assert(ms.take(n as int) =~= ms);
    }
    if total_bps != 10_000 {
        return Err(VestingError::InvalidMilestones);
    }
    Ok(out)
}

/// The first check of milestone-stream creation that fails before the
/// sponsor's authorisation, if any.
pub open spec fn milestone_create_check(
    st: &VestingDrips,
    sponsor: Account,
    recipient: Account,
    milestones: Seq<(u32, u32)>,
    total_deposit: i128,
) -> Option<VestingError> {
    if sponsor == recipient {
        Some(VestingError::InvalidRecipient)
    } else if st.milestone_schedules@.contains_key(recipient) {
        Some(VestingError::ScheduleAlreadyExists)
    } else if !milestones_valid(milestones) {
        Some(VestingError::InvalidMilestones)
    } else if total_deposit < effective_min_deposit(st.min_deposit) {
        Some(VestingError::DepositBelowMinimum)
    } else {
        None
    }
}

/// The first check of `claim_milestone` that fails before the payout, if any.
pub open spec fn milestone_claim_check(st: &VestingDrips, recipient: Account, now: u32) -> Option<VestingError> {
    if !st.milestone_schedules@.contains_key(recipient) {
        Some(VestingError::ScheduleNotFound)
    } else {
        let s = st.milestone_schedules@[recipient];
        match unlock_walk(s.total_deposited, s.milestones@, now, s.next_milestone_idx as int, 0) {
            Err(e) => Some(e),
            Ok(w) => if w.1 == 0 { Some(VestingError::NothingToClaim) } else { None },
        }
    }
}

/// The sum of the basis points of milestones `from..to`.
pub open spec fn bps_between(ms: Seq<Milestone>, from: int, to: int) -> int
    decreases to - from,
{
    if to <= from {
        0
    } else {
        bps_between(ms, from, to - 1) + ms[to - 1].bps_unlock
    }
}

impl MilestoneSchedule {
    /// The invariant every milestone schedule written by the contract keeps:
    /// a non-negative deposit, basis points summing to 10000, and exactly
    /// the milestones before `next_milestone_idx` paid out.
    pub open spec fn sound(self) -> bool {
        let ms = self.milestones@;
        &&& self.total_deposited >= 0
        &&& bps_between(ms, 0, ms.len() as int) == 10000
        &&& self.next_milestone_idx <= ms.len()
        &&& self.total_claimed == amounts_between(self.total_deposited as int, ms, 0, self.next_milestone_idx as int)
    }
}

proof fn lemma_bps_between_prefix(p: Seq<(u32, u32)>, k: int)
    requires
        0 <= k <= p.len(),
    ensures
        bps_between(to_milestones(p), 0, k) == bps_total(p.take(k)),
    decreases k,
{
    if k > 0 {
        lemma_bps_between_prefix(p, k - 1);
        assert(p.take(k).drop_last() =~= p.take(k - 1));
    } else {
        assert(p.take(0) =~= Seq::<(u32, u32)>::empty());
    }
}

proof fn lemma_bps_between_split(ms: Seq<Milestone>, a: int, b: int, c: int)
    requires
        a <= b <= c,
    ensures
        bps_between(ms, a, c) == bps_between(ms, a, b) + bps_between(ms, b, c),
        bps_between(ms, a, b) >= 0,
    decreases c - b,
{
    if c > b {
        lemma_bps_between_split(ms, a, b, c - 1);
    } else {
        lemma_bps_between_nonneg(ms, a, b);
    }
}

proof fn lemma_bps_between_nonneg(ms: Seq<Milestone>, a: int, b: int)
    ensures
        bps_between(ms, a, b) >= 0,
    decreases b - a,
{
    if b > a {
        lemma_bps_between_nonneg(ms, a, b - 1);
    }
}

proof fn lemma_amounts_split(total: int, ms: Seq<Milestone>, a: int, b: int, c: int)
    requires
        a <= b <= c,
    ensures
        amounts_between(total, ms, a, c) == amounts_between(total, ms, a, b) + amounts_between(total, ms, b, c),
    decreases c - b,
{
    if c > b {
        lemma_amounts_split(total, ms, a, b, c - 1);
    }
}

/// One milestone's amount is at most its share of the deposit.
proof fn lemma_amount_bound(total: int, bps: u32)
    requires
        total >= 0,
    ensures
        0 <= milestone_amount(total, bps),
        milestone_amount(total, bps) * 10000 <= total * bps,
{
    let p = total * bps;
    assert(p >= 0) by (nonlinear_arith)
        requires p == total * bps, total >= 0, bps >= 0;
    assert((p / 10000) * 10000 <= p) by (nonlinear_arith)
        requires p >= 0;
    assert(p / 10000 >= 0) by (nonlinear_arith)
        requires p >= 0;
}

/// Milestone amounts add up to at most their share of the deposit.
proof fn lemma_amounts_bound(total: int, ms: Seq<Milestone>, a: int, b: int)
    requires
        total >= 0,
        a <= b,
    ensures
        0 <= amounts_between(total, ms, a, b),
        amounts_between(total, ms, a, b) * 10000 <= total * bps_between(ms, a, b),
    decreases b - a,
{
    if b > a {
        lemma_amounts_bound(total, ms, a, b - 1);
        lemma_amount_bound(total, ms[b - 1].bps_unlock);
        let x = amounts_between(total, ms, a, b - 1);
        let y = milestone_amount(total, ms[b - 1].bps_unlock);
        let u = bps_between(ms, a, b - 1);
        let v = ms[b - 1].bps_unlock as int;
        assert((x + y) * 10000 == x * 10000 + y * 10000) by (nonlinear_arith);
        assert(total * (u + v) == total * u + total * v) by (nonlinear_arith);
    }
}

proof fn lemma_walk(total: i128, ms: Seq<Milestone>, now: u32, i: int, acc: int)
    requires
        total >= 0,
        total * 10000 <= i128::MAX,
        0 <= i <= ms.len(),
        0 <= acc,
        acc + amounts_between(total as int, ms, i, ms.len() as int) <= i128::MAX,
        forall|k: int| 0 <= k < ms.len() ==> #[trigger] ms[k].bps_unlock <= 10000,
    ensures
        unlock_walk(total, ms, now, i, acc) is Ok,
        i <= unlock_walk(total, ms, now, i, acc)->Ok_0.0 <= ms.len(),
        unlock_walk(total, ms, now, i, acc)->Ok_0.1
            == acc + amounts_between(total as int, ms, i, unlock_walk(total, ms, now, i, acc)->Ok_0.0),
    decreases ms.len() - i,
{
    if i < ms.len() && now >= ms[i].ledger {
        let b = ms[i].bps_unlock;
        assert(0 <= total * b <= total * 10000) by (nonlinear_arith)
            requires total >= 0, 0 <= b <= 10000;
        lemma_amounts_split(total as int, ms, i, i + 1, ms.len() as int);
        assert(amounts_between(total as int, ms, i, i) == 0);
        assert(amounts_between(total as int, ms, i, i + 1) == milestone_amount(total as int, b));
        lemma_amounts_bound(total as int, ms, i + 1, ms.len() as int);
        lemma_amount_bound(total as int, b);
        let a2 = acc + milestone_amount(total as int, b);
        lemma_walk(total, ms, now, i + 1, a2);
        let j = unlock_walk(total, ms, now, i + 1, a2)->Ok_0.0;
        lemma_amounts_split(total as int, ms, i, i + 1, j);
    }
}

/// Whatever the deposit, a walk that succeeds stops at an index between
/// where it started and the end, having added up exactly the amounts of the
/// milestones it walked over.
proof fn lemma_walk_result(total: i128, ms: Seq<Milestone>, now: u32, i: int, acc: int)
    requires
        0 <= i <= ms.len(),
    ensures
        unlock_walk(total, ms, now, i, acc) is Ok ==> {
            let w = unlock_walk(total, ms, now, i, acc)->Ok_0;
            &&& i <= w.0 <= ms.len()
            &&& w.1 == acc + amounts_between(total as int, ms, i, w.0)
        },
    decreases ms.len() - i,
{
    if i < ms.len() && now >= ms[i].ledger
        && i128::MIN <= total * ms[i].bps_unlock <= i128::MAX
        && i128::MIN <= acc + milestone_amount(total as int, ms[i].bps_unlock) <= i128::MAX {
        let a2 = acc + milestone_amount(total as int, ms[i].bps_unlock);
        lemma_walk_result(total, ms, now, i + 1, a2);
        if unlock_walk(total, ms, now, i + 1, a2) is Ok {
            let j = unlock_walk(total, ms, now, i + 1, a2)->Ok_0.0;
            lemma_amounts_split(total as int, ms, i, i + 1, j);
            assert(amounts_between(total as int, ms, i, i) == 0);
        }
    }
}

/// Law: on a milestone schedule that keeps its invariant, what has been
/// claimed lies between 0 and the deposit; a claim whose walk over the
/// reached milestones computes (always so when the deposit times 10000 fits
/// in `i128`) pays exactly the amounts of the milestones it walks over,
/// never moves the next index back, and afterwards exactly the milestones
/// before the new index are paid, never more than the deposit. A claim
/// whose walk overflows fails with `DepositOverflow` and pays nothing.
pub proof fn lemma_milestone_claims_bounded(s: MilestoneSchedule, now: u32)
    requires
        s.sound(),
    ensures
        0 <= s.total_claimed <= s.total_deposited,
        s.total_deposited * 10000 <= i128::MAX
            ==> unlock_walk(s.total_deposited, s.milestones@, now, s.next_milestone_idx as int, 0) is Ok,
        unlock_walk(s.total_deposited, s.milestones@, now, s.next_milestone_idx as int, 0) is Ok ==> ({
            let w = unlock_walk(s.total_deposited, s.milestones@, now, s.next_milestone_idx as int, 0)->Ok_0;
            &&& s.next_milestone_idx <= w.0 <= s.milestones@.len()
            &&& w.1 == amounts_between(s.total_deposited as int, s.milestones@, s.next_milestone_idx as int, w.0)
            &&& w.1 >= 0
            &&& s.total_claimed + w.1 == amounts_between(s.total_deposited as int, s.milestones@, 0, w.0)
            &&& s.total_claimed + w.1 <= s.total_deposited
        }),
{
    let ms = s.milestones@;
    let total = s.total_deposited as int;
    let n = ms.len() as int;
    let next = s.next_milestone_idx as int;
    assert forall|k: int| 0 <= k < ms.len() implies #[trigger] ms[k].bps_unlock <= 10000 by {
        lemma_bps_between_split(ms, 0, k, k + 1);
        assert(bps_between(ms, k, k) == 0);
        assert(bps_between(ms, k, k + 1) == ms[k].bps_unlock);
        lemma_bps_between_split(ms, 0, k + 1, n);
        lemma_bps_between_nonneg(ms, 0, k);
        lemma_bps_between_nonneg(ms, k + 1, n);
    }
    lemma_amounts_bound(total, ms, 0, n);
    assert(amounts_between(total, ms, 0, n) <= total) by (nonlinear_arith)
        requires
            amounts_between(total, ms, 0, n) * 10000 <= total * bps_between(ms, 0, n),
            bps_between(ms, 0, n) == 10000;
    lemma_amounts_split(total, ms, 0, next, n);
    lemma_amounts_bound(total, ms, 0, next);
    lemma_amounts_bound(total, ms, next, n);
    if s.total_deposited * 10000 <= i128::MAX {
        lemma_walk(s.total_deposited, ms, now, next, 0);
    }
    lemma_walk_result(s.total_deposited, ms, now, next, 0);
    if unlock_walk(s.total_deposited, ms, now, next, 0) is Ok {
        let j = unlock_walk(s.total_deposited, ms, now, next, 0)->Ok_0.0;
        lemma_amounts_split(total, ms, 0, next, j);
        lemma_amounts_split(total, ms, 0, j, n);
        lemma_amounts_bound(total, ms, next, j);
        lemma_amounts_bound(total, ms, j, n);
    }
}

/// The milestone schedule after claims at each ledger of `ls` in turn, and
/// what those claims paid in total. A claim that fails (nothing to pay, or
/// its walk overflows) pays nothing and leaves the schedule as it was; one
/// that pays moves the next index to where its walk stopped and adds what it
/// paid to `total_claimed`.
pub open spec fn after_milestone_claims(s: MilestoneSchedule, ls: Seq<u32>) -> (MilestoneSchedule, int)
    decreases ls.len(),
{
    if ls.len() == 0 {
        (s, 0)
    } else {
        let prev = after_milestone_claims(s, ls.drop_last());
        let t = prev.0;
        match unlock_walk(t.total_deposited, t.milestones@, ls.last(), t.next_milestone_idx as int, 0) {
            Err(_) => prev,
            Ok(w) => if w.1 == 0 {
                prev
            } else {
                (
                    MilestoneSchedule { next_milestone_idx: w.0 as u32, total_claimed: (t.total_claimed + w.1) as i128, ..t },
                    prev.1 + w.1,
                )
            },
        }
    }
}

/// With every milestone's share a whole number of tokens, the amounts of
/// milestones `a..b` are exactly their share of the deposit.
proof fn lemma_amounts_exact(total: int, ms: Seq<Milestone>, a: int, b: int)
    requires
        total >= 0,
        a <= b,
        forall|k: int| a <= k < b ==> (total * #[trigger] ms[k].bps_unlock) % 10000 == 0,
    ensures
        amounts_between(total, ms, a, b) * 10000 == total * bps_between(ms, a, b),
    decreases b - a,
{
    if b > a {
        lemma_amounts_exact(total, ms, a, b - 1);
        let bps = ms[b - 1].bps_unlock;
        let p = total * bps;
        assert(p >= 0) by (nonlinear_arith)
            requires p == total * bps, total >= 0, bps >= 0;
        assert((p / 10000) * 10000 == p) by (nonlinear_arith)
            requires p % 10000 == 0, p >= 0;
        let x = amounts_between(total, ms, a, b - 1);
        let y = bps_between(ms, a, b - 1);
        assert(total * (y + bps) == total * y + total * bps) by (nonlinear_arith);
        assert((x + p / 10000) * 10000 == x * 10000 + (p / 10000) * 10000) by (nonlinear_arith);
    }
}

/// Law: over any sequence of claims on a milestone schedule that keeps its
/// invariant, whatever the deposit (claims that fail pay nothing), no
/// milestone is paid twice (the next index never moves back), the schedule keeps its
/// invariant, and everything paid, together with what was claimed before,
/// never exceeds the deposit. Once every milestone is claimed and each
/// milestone's share is a whole number of tokens, exactly the deposit has
/// been paid.
pub proof fn lemma_milestone_claim_sequence(s: MilestoneSchedule, ls: Seq<u32>)
    requires
        s.sound(),
        s.milestones@.len() <= u32::MAX,
    ensures
        ({
            let (t, paid) = after_milestone_claims(s, ls);
            &&& t.sound()
            &&& t.total_deposited == s.total_deposited
            &&& t.milestones@ == s.milestones@
            &&& s.next_milestone_idx <= t.next_milestone_idx
            &&& paid >= 0
            &&& t.total_claimed == s.total_claimed + paid
            &&& s.total_claimed + paid <= s.total_deposited
            &&& t.next_milestone_idx == t.milestones@.len()
                && (forall|k: int| 0 <= k < s.milestones@.len()
                    ==> (s.total_deposited * #[trigger] s.milestones@[k].bps_unlock) % 10000 == 0)
                ==> t.total_claimed == s.total_deposited
        }),
    decreases ls.len(),
{
    if ls.len() > 0 {
        lemma_milestone_claim_sequence(s, ls.drop_last());
        let t = after_milestone_claims(s, ls.drop_last()).0;
        lemma_milestone_claims_bounded(t, ls.last());
    }
    let (t, paid) = after_milestone_claims(s, ls);
    lemma_milestone_claims_bounded(t, 0);
    let ms = s.milestones@;
    let n = ms.len() as int;
    let total = s.total_deposited as int;
    if t.next_milestone_idx == n
        && (forall|k: int| 0 <= k < n ==> (total * #[trigger] ms[k].bps_unlock) % 10000 == 0) {
        lemma_amounts_exact(total, ms, 0, n);
        let x = amounts_between(total, ms, 0, n);
        assert(x == total) by (nonlinear_arith)
            requires x * 10000 == total * 10000;
    }
}

/// A walk fails only with `DepositOverflow`.
proof fn lemma_walk_err(total: i128, ms: Seq<Milestone>, now: u32, i: int, acc: int)
    ensures
        unlock_walk(total, ms, now, i, acc) is Err
            ==> unlock_walk(total, ms, now, i, acc) == Err::<(int, int), VestingError>(VestingError::DepositOverflow),
    decreases ms.len() - i,
{
    if 0 <= i < ms.len() && now >= ms[i].ledger
        && i128::MIN <= total * ms[i].bps_unlock <= i128::MAX
        && i128::MIN <= acc + milestone_amount(total as int, ms[i].bps_unlock) <= i128::MAX {
        lemma_walk_err(total, ms, now, i + 1, acc + milestone_amount(total as int, ms[i].bps_unlock));
    }
}

/// A walk that succeeds from `i` with every remaining milestone reached
/// runs to the end.
proof fn lemma_walk_all_reached(total: i128, ms: Seq<Milestone>, now: u32, i: int, acc: int)
    requires
        0 <= i <= ms.len(),
        forall|k: int| i <= k < ms.len() ==> #[trigger] ms[k].ledger <= now,
    ensures
        unlock_walk(total, ms, now, i, acc) is Ok ==> unlock_walk(total, ms, now, i, acc)->Ok_0.0 == ms.len(),
    decreases ms.len() - i,
{
    if i < ms.len()
        && i128::MIN <= total * ms[i].bps_unlock <= i128::MAX
        && i128::MIN <= acc + milestone_amount(total as int, ms[i].bps_unlock) <= i128::MAX {
        lemma_walk_all_reached(total, ms, now, i + 1, acc + milestone_amount(total as int, ms[i].bps_unlock));
    }
}

/// Law: a milestone claim succeeds exactly when its walk over the reached
/// milestones computes and pays something, whatever the current ledger is
/// relative to the schedule's `end_ledger` (which no claim consults). When
/// every unclaimed milestone has been reached and the deposit times 10000
/// fits in `i128`, the claim pays the amounts of all unclaimed milestones,
/// and succeeds exactly when that sum is positive.
pub proof fn lemma_milestone_claim_pays_reached(st: &VestingDrips, recipient: Account, now: u32)
    requires
        st.milestone_schedules@.contains_key(recipient),
        st.milestone_schedules@[recipient].sound(),
    ensures
        ({
            let s = st.milestone_schedules@[recipient];
            let w = unlock_walk(s.total_deposited, s.milestones@, now, s.next_milestone_idx as int, 0);
            &&& milestone_claim_check(st, recipient, now) is None <==> (w is Ok && w->Ok_0.1 != 0)
            &&& (w is Err ==> milestone_claim_check(st, recipient, now) == Some(VestingError::DepositOverflow))
            &&& (forall|k: int| s.next_milestone_idx <= k < s.milestones@.len() ==> #[trigger] s.milestones@[k].ledger <= now)
                && s.total_deposited * 10000 <= i128::MAX
                ==> {
                    &&& w is Ok
                    &&& w->Ok_0.0 == s.milestones@.len()
                    &&& w->Ok_0.1 == amounts_between(
                        s.total_deposited as int,
                        s.milestones@,
                        s.next_milestone_idx as int,
                        s.milestones@.len() as int,
                    )
                    &&& (milestone_claim_check(st, recipient, now) is None <==> w->Ok_0.1 > 0)
                }
        }),
{
    let s = st.milestone_schedules@[recipient];
    let ms = s.milestones@;
    lemma_milestone_claims_bounded(s, now);
    lemma_walk_err(s.total_deposited, ms, now, s.next_milestone_idx as int, 0);
    if forall|k: int| s.next_milestone_idx <= k < ms.len() ==> #[trigger] ms[k].ledger <= now {
        lemma_walk_all_reached(s.total_deposited, ms, now, s.next_milestone_idx as int, 0);
    }
}

/// Law: a milestone schedule that creation stores (with a non-negative
/// deposit) keeps the milestone invariant.
pub proof fn lemma_created_milestones_sound(p: Seq<(u32, u32)>, s: MilestoneSchedule)
    requires
        milestones_valid(p),
        s.milestones@ == to_milestones(p),
        s.total_deposited >= 0,
        s.next_milestone_idx == 0,
        s.total_claimed == 0,
    ensures
        s.sound(),
{
    lemma_bps_between_prefix(p, p.len() as int);
    assert(p.take(p.len() as int) =~= p);
}

impl VestingDrips {
    /// Creates a milestone stream: `total_deposit` tokens unlock in parts at
    /// the given `(ledger, bps)` milestones.
    ///
    /// Fails with `InvalidRecipient`, `ScheduleAlreadyExists`,
    /// `InvalidMilestones` (see [`milestones_valid`]) or `DepositBelowMinimum`,
    /// in that order.
    pub fn create_milestone_stream(
        &mut self,
        sponsor: Account,
        recipient: Account,
        token: Account,
        milestones: Vec<(u32, u32)>,
        end_ledger: u32,
        total_deposit: i128,
    ) -> (r: Outcome<()>)
        ensures
            milestone_create_check(old(self), sponsor, recipient, milestones@, total_deposit) matches Some(e)
                ==> r.result == Err::<(), VestingError>(e) && r.effects@ == Seq::<Effect>::empty()
                && same_state(final(self), old(self)),
            milestone_create_check(old(self), sponsor, recipient, milestones@, total_deposit) is None ==> {
                &&& r.result == Ok::<(), VestingError>(())
                &&& r.effects@ == seq![
                    Effect::RequireAuth(sponsor),
                    Effect::TryTransfer(deposit(token, sponsor, total_deposit)),
                    Effect::Emit(Event::MilestoneStreamCreated { sponsor, recipient, token, total_deposited: total_deposit, end_ledger }),
                ]
                &&& final(self).milestone_schedules@.contains_key(recipient)
                &&& final(self).milestone_schedules@ == old(self).milestone_schedules@.insert(
                    recipient,
                    final(self).milestone_schedules@[recipient],
                )
                &&& ({
                    let s = final(self).milestone_schedules@[recipient];
                    &&& s.token == token
                    &&& s.sponsor == sponsor
                    &&& s.total_deposited == total_deposit
                    &&& s.milestones@ == to_milestones(milestones@)
                    &&& s.next_milestone_idx == 0
                    &&& s.end_ledger == end_ledger
                    &&& s.total_claimed == 0
                })
                &&& same_config(final(self), old(self))
                &&& final(self).schedules@ == old(self).schedules@
                &&& final(self).variable_schedules@ == old(self).variable_schedules@
            },
    {
        if sponsor == recipient {
            return Outcome { effects: no_effects(), result: Err(VestingError::InvalidRecipient) };
        }
        if self.milestone_schedules.contains_key(&recipient) {
            return Outcome { effects: no_effects(), result: Err(VestingError::ScheduleAlreadyExists) };
        }
        let milestone_vec = match validate_milestones(&milestones) {
            Ok(v) => v,
            Err(e) => return Outcome { effects: no_effects(), result: Err(e) },
        };
        if total_deposit < self.get_min_deposit() {
            return Outcome { effects: no_effects(), result: Err(VestingError::DepositBelowMinimum) };
        }
        let mut effects = auth_only(sponsor);
        effects.push(Effect::TryTransfer(make_deposit(token, sponsor, total_deposit)));
        let schedule = MilestoneSchedule {
            token,
            sponsor,
            total_deposited: total_deposit,
            milestones: milestone_vec,
            next_milestone_idx: 0,
            end_ledger,
            total_claimed: 0,
        };
        self.milestone_schedules.insert(recipient, schedule);
        effects.push(Effect::Emit(Event::MilestoneStreamCreated {
            sponsor,
            recipient,
            token,
            total_deposited: total_deposit,
            end_ledger,
        }));
        Outcome { effects, result: Ok(()) }
    }

    /// Claims every milestone from the next unclaimed one up to the first
    /// whose ledger has not been reached (see [`unlock_walk`]).
    ///
    /// Fails with `ScheduleNotFound`, `DepositOverflow` (an amount or the
    /// running sum overflows), `NothingToClaim`, or `DepositOverflow` again
    /// after the payout when `total_claimed` would overflow. A schedule whose
    /// last milestone is claimed is removed.
    pub fn claim_milestone(&mut self, recipient: Account, current_ledger: u32) -> (r: Outcome<i128>)
        requires
            old(self).milestone_schedules@.contains_key(recipient)
                ==> old(self).milestone_schedules@[recipient].milestones@.len() <= u32::MAX,
        ensures
            milestone_claim_check(old(self), recipient, current_ledger) matches Some(e)
                ==> r.result == Err::<i128, VestingError>(e) && r.effects@ == seq![Effect::RequireAuth(recipient)]
                && same_state(final(self), old(self)),
            milestone_claim_check(old(self), recipient, current_ledger) is None ==> ({
                let s = old(self).milestone_schedules@[recipient];
                let w = unlock_walk(s.total_deposited, s.milestones@, current_ledger, s.next_milestone_idx as int, 0)->Ok_0;
                let c = w.1 as i128;
                let paid = r.effects@.take(2) == seq![Effect::RequireAuth(recipient), Effect::TryTransfer(payout(s.token, recipient, c))];
                &&& paid
                &&& !(i128::MIN <= s.total_claimed + c <= i128::MAX) ==> r.result == Err::<i128, VestingError>(VestingError::DepositOverflow)
                    && r.effects@.len() == 2 && same_state(final(self), old(self))
                &&& i128::MIN <= s.total_claimed + c <= i128::MAX ==> {
                    let s2 = MilestoneSchedule {
                        next_milestone_idx: w.0 as u32,
                        total_claimed: (s.total_claimed + c) as i128,
                        ..s
                    };
                    let done = w.0 >= s.milestones@.len();
                    &&& r.result == Ok::<i128, VestingError>(c)
                    &&& r.effects@ == seq![Effect::RequireAuth(recipient), Effect::TryTransfer(payout(s.token, recipient, c))]
                        + (if done { seq![Effect::Emit(Event::StreamCompleted { recipient, token: s.token })] } else { Seq::empty() })
                        + seq![Effect::Emit(Event::MilestoneClaimed { recipient, amount: c })]
                    &&& done ==> final(self).milestone_schedules@ == old(self).milestone_schedules@.remove(recipient)
                    &&& !done ==> final(self).milestone_schedules@ == old(self).milestone_schedules@.insert(recipient, s2)
                    &&& same_config(final(self), old(self))
                    &&& final(self).schedules@ == old(self).schedules@
                    &&& final(self).variable_schedules@ == old(self).variable_schedules@
                }
            }),
    {
        let mut effects = auth_only(recipient);
        let s = match self.milestone_schedules.get(&recipient) {
            Some(s) => s,
            None => return Outcome { effects, result: Err(VestingError::ScheduleNotFound) },
        };
        let ghost ms = s.milestones@;
        let ghost start = s.next_milestone_idx as int;
        let total = s.total_deposited;
        let n = s.milestones.len();
        let mut claimable: i128 = 0;
        let mut new_idx: u32 = s.next_milestone_idx;
        while (new_idx as usize) < n
            invariant
                old(self).milestone_schedules@.contains_key(recipient),
                *s == old(self).milestone_schedules@[recipient],
                same_state(self, old(self)),
                effects@ == seq![Effect::RequireAuth(recipient)],
                start == s.next_milestone_idx,
                ms == s.milestones@,
                n == ms.len(),
                n <= u32::MAX,
                total == s.total_deposited,
                start <= new_idx,
                unlock_walk(total, ms, current_ledger, new_idx as int, claimable as int)
                    == unlock_walk(total, ms, current_ledger, start, 0),
            ensures
                unlock_walk(total, ms, current_ledger, start, 0) == Ok::<(int, int), VestingError>((new_idx as int, claimable as int)),
            decreases n - new_idx,
        {
            let m = s.milestones[new_idx as usize];
            assert(m == ms[new_idx as int]);
            if current_ledger >= m.ledger {
                let scaled = match total.checked_mul(m.bps_unlock as i128) {
                    Some(v) => v,
                    None => {
                        assert(unlock_walk(total, ms, current_ledger, new_idx as int, claimable as int)
                            == Err::<(int, int), VestingError>(VestingError::DepositOverflow));
                        return Outcome { effects, result: Err(VestingError::DepositOverflow) };
                    },
                };
                let amount = scaled / 10_000;
                assert(amount == milestone_amount(total as int, m.bps_unlock));
                claimable = match claimable.checked_add(amount) {
                    Some(v) => v,
                    None => {
                        assert(unlock_walk(total, ms, current_ledger, new_idx as int, claimable as int)
                            == Err::<(int, int), VestingError>(VestingError::DepositOverflow));
                        return Outcome { effects, result: Err(VestingError::DepositOverflow) };
                    },
                };
                new_idx = new_idx + 1;
            } else {
                break;
            }
        }
        if claimable == 0 {
            return Outcome { effects, result: Err(VestingError::NothingToClaim) };
        }
        let token = s.token;
        effects.push(Effect::TryTransfer(make_payout(token, recipient, claimable)));
        proof {
            assert(effects@.take(2) =~= seq![Effect::RequireAuth(recipient), Effect::TryTransfer(payout(token, recipient, claimable))]);
        }
        let total_claimed = match s.total_claimed.checked_add(claimable) {
            Some(v) => v,
            None => return Outcome { effects, result: Err(VestingError::DepositOverflow) },
        };
        let ghost base = effects@;
        let mut s = self.milestone_schedules.remove(&recipient).unwrap();
        let ghost s0 = s;
        s.next_milestone_idx = new_idx;
        s.total_claimed = total_claimed;
        assert(s == (MilestoneSchedule { next_milestone_idx: new_idx, total_claimed, ..s0 }));
        if new_idx as usize >= n {
            effects.push(Effect::Emit(Event::StreamCompleted { recipient, token }));
        } else {
            self.milestone_schedules.insert(recipient, s);
        }
        let ghost mid = effects@;
        effects.push(Effect::Emit(Event::MilestoneClaimed { recipient, amount: claimable }));
        proof {
            assert(mid =~= base + (if new_idx as usize >= n {
                seq![Effect::Emit(Event::StreamCompleted { recipient, token })]
            } else {
                Seq::<Effect>::empty()
            }));
            assert(effects@.take(2) =~= base);
            let done = new_idx as usize >= n;
            assert(effects@ =~= seq![Effect::RequireAuth(recipient), Effect::TryTransfer(payout(token, recipient, claimable))]
                + (if done { seq![Effect::Emit(Event::StreamCompleted { recipient, token })] } else { Seq::<Effect>::empty() })
                + seq![Effect::Emit(Event::MilestoneClaimed { recipient, amount: claimable })]);
        }
        proof {
            let so = old(self).milestone_schedules@[recipient];
            let w = unlock_walk(so.total_deposited, so.milestones@, current_ledger, so.next_milestone_idx as int, 0)->Ok_0;
            assert(w.0 == new_idx);
            assert(w.1 == claimable);
            assert(effects@.take(2) =~= seq![Effect::RequireAuth(recipient), Effect::TryTransfer(payout(token, recipient, claimable))]);
            assert(so == s0);
            assert(w.0 < so.milestones@.len() ==> self.milestone_schedules@ == old(self).milestone_schedules@.insert(recipient, MilestoneSchedule { next_milestone_idx: w.0 as u32, total_claimed: (so.total_claimed + claimable) as i128, ..so }));
            assert(w.0 >= so.milestones@.len() ==> self.milestone_schedules@ == old(self).milestone_schedules@.remove(recipient));
        }
        Outcome { effects, result: Ok(claimable) }
    }
}

} // verus!
