use vesting_cliff_drip_stream::account::Account;
use vesting_cliff_drip_stream::allowlist;
use vesting_cliff_drip_stream::cliff::basis_points;
use vesting_cliff_drip_stream::contract::VestingDrips;
use vesting_cliff_drip_stream::effects::{Effect, Event, Outcome, Party, Transfer};
use vesting_cliff_drip_stream::error::VestingError;
use vesting_cliff_drip_stream::fixed::calculate_total_deposit;
use vesting_cliff_drip_stream::milestone::validate_milestones;
use vesting_cliff_drip_stream::table::Table;
use vesting_cliff_drip_stream::types::{RateSegment, StreamStatus, WasmHash, DRAIN_DELAY_LEDGERS};
use vesting_cliff_drip_stream::variable::{checked_variable_claimable, compute_variable_claimable};

fn who(n: u128) -> Account {
    Account { k0: n, k1: 7, k2: 0, k3: 1 }
}

const SPONSOR: u128 = 1;
const RECIPIENT: u128 = 2;
const TOKEN: u128 = 900;

/// The amounts of the transfers of an outcome, in order.
fn transfers<T>(out: &Outcome<T>) -> Vec<Transfer> {
    let mut v = Vec::new();
    for e in &out.effects {
        match e {
            Effect::TryTransfer(t) | Effect::Transfer(t) => v.push(*t),
            _ => {},
        }
    }
    v
}

fn fresh_stream(rate: i128, cliff: u32, total: u32, now: u32) -> VestingDrips {
    let mut st = VestingDrips::new();
    st.create_vesting_stream(who(SPONSOR), who(RECIPIENT), who(TOKEN), rate, cliff, total, now).result.unwrap();
    st
}

// ── deposit arithmetic ───────────────────────────────────────────────────────

#[test]
fn deposit_boundary_is_exact() {
    let limit = i128::MAX / 200;
    assert_eq!(calculate_total_deposit(limit, 200), Ok(limit * 200));
    assert_eq!(calculate_total_deposit(limit + 1, 200), Err(VestingError::DepositOverflow));
    assert_eq!(calculate_total_deposit(-3, 7), Ok(-21));
    assert_eq!(calculate_total_deposit(10, 200), Ok(2_000));
}

#[test]
fn create_reports_deposit_transfer_and_event() {
    let mut st = VestingDrips::new();
    let out = st.create_vesting_stream(who(SPONSOR), who(RECIPIENT), who(TOKEN), 10, 50, 200, 100);
    assert_eq!(out.result, Ok(()));
    let ts = transfers(&out);
    assert_eq!(ts.len(), 1);
    assert_eq!(ts[0], Transfer { token: who(TOKEN), from: Party::Holder(who(SPONSOR)), to: Party::Vault, amount: 2_000 });
    match &out.effects[0] {
        Effect::RequireAuth(a) => assert_eq!(*a, who(SPONSOR)),
        _ => panic!("first effect must be the sponsor's authorisation"),
    }
    match out.effects.last().unwrap() {
        Effect::Emit(Event::StreamCreated { total_deposit, cliff_ledger, end_ledger, .. }) => {
            assert_eq!(*total_deposit, 2_000);
            assert_eq!(*cliff_ledger, 150);
            assert_eq!(*end_ledger, 300);
        },
        _ => panic!("last effect must be the creation event"),
    }
}

#[test]
fn create_rejects_ledger_overflow_after_auth() {
    let mut st = VestingDrips::new();
    let out = st.create_vesting_stream(who(SPONSOR), who(RECIPIENT), who(TOKEN), 10, 50, 200, u32::MAX - 10);
    assert_eq!(out.result, Err(VestingError::DepositOverflow));
    assert_eq!(out.effects.len(), 1);
    assert!(st.get_schedule(who(RECIPIENT)).is_none());
}

#[test]
fn create_enforces_minimum_deposit() {
    let mut st = VestingDrips::new();
    // default minimum is 100: 1 * 50 is below it
    let out = st.create_vesting_stream(who(SPONSOR), who(RECIPIENT), who(TOKEN), 1, 10, 50, 100);
    assert_eq!(out.result, Err(VestingError::DepositBelowMinimum));
    assert_eq!(st.set_min_deposit(who(3), 5_000).result, Err(VestingError::Unauthorized));
    assert_eq!(st.get_min_deposit(), 100);
    st.initialize(who(3), 0, who(4)).result.unwrap();
    assert_eq!(st.set_min_deposit(who(3), 5_000).result, Ok(()));
    assert_eq!(st.get_min_deposit(), 5_000);
    let out = st.create_vesting_stream(who(SPONSOR), who(RECIPIENT), who(TOKEN), 10, 50, 200, 100);
    assert_eq!(out.result, Err(VestingError::DepositBelowMinimum));
    assert_eq!(st.set_min_deposit(who(3), 0).result, Err(VestingError::InvalidRate));
}

#[test]
fn create_collects_fee_to_treasury() {
    let mut st = VestingDrips::new();
    let (admin, treasury) = (who(40), who(41));
    assert_eq!(st.initialize(admin, 100, treasury).result, Ok(()));
    let out = st.create_vesting_stream(who(SPONSOR), who(RECIPIENT), who(TOKEN), 10, 50, 200, 100);
    assert_eq!(out.result, Ok(()));
    let ts = transfers(&out);
    assert_eq!(ts.len(), 2);
    assert_eq!(ts[1], Transfer { token: who(TOKEN), from: Party::Holder(who(SPONSOR)), to: Party::Holder(treasury), amount: 20 });
}

#[test]
fn create_with_fee_but_no_treasury_is_unauthorized() {
    let mut st = VestingDrips::new();
    st.fee_bps = 100;
    let out = st.create_vesting_stream(who(SPONSOR), who(RECIPIENT), who(TOKEN), 10, 50, 200, 100);
    assert_eq!(out.result, Err(VestingError::Unauthorized));
    assert_eq!(transfers(&out).len(), 1);
    assert!(st.get_schedule(who(RECIPIENT)).is_none());
}

// ── claims add up to the deposit ─────────────────────────────────────────────

#[test]
fn claims_sum_to_deposit_law() {
    let mut st = fresh_stream(3, 10, 100, 1_000);
    let mut paid = 0i128;
    for now in [1_010u32, 1_033, 1_034, 1_099, 1_200] {
        let out = st.claim_vested(who(RECIPIENT), now);
        if let Ok(c) = out.result {
            paid += c;
        }
    }
    assert_eq!(paid, 300);
    assert!(st.get_schedule(who(RECIPIENT)).is_none());
}

#[test]
fn claim_before_cliff_and_twice_in_a_ledger_fail() {
    let mut st = fresh_stream(10, 50, 200, 100);
    assert_eq!(st.claim_vested(who(RECIPIENT), 149).result, Err(VestingError::CliffNotReached));
    assert_eq!(st.claim_vested(who(RECIPIENT), 150).result, Ok(500));
    assert_eq!(st.claim_vested(who(RECIPIENT), 150).result, Err(VestingError::NothingToClaim));
    assert_eq!(st.claim_vested(who(5), 150).result, Err(VestingError::ScheduleNotFound));
    assert_eq!(st.get_schedule(who(RECIPIENT)).unwrap().version, 2);
}

#[test]
fn claim_at_version_limit_overflows() {
    let mut st = fresh_stream(10, 50, 200, 100);
    let mut s = st.schedules.remove(&who(RECIPIENT)).unwrap();
    s.version = u32::MAX;
    assert_eq!(s.increment_version(), Err(VestingError::VersionOverflow));
    st.schedules.insert(who(RECIPIENT), s);
    assert_eq!(st.claim_vested(who(RECIPIENT), 160).result, Err(VestingError::VersionOverflow));
}

#[test]
fn view_matches_claim_law() {
    let mut st = fresh_stream(10, 50, 200, 100);
    for now in [150u32, 180, 299, 400] {
        let view = st.claimable_amount(who(RECIPIENT), now);
        let out = st.claim_vested(who(RECIPIENT), now);
        assert_eq!(out.result, Ok(view));
    }
    assert_eq!(st.claimable_amount(who(RECIPIENT), 500), 0);
}

#[test]
fn stream_info_snapshot_is_consistent_law() {
    let mut st = fresh_stream(7, 30, 90, 100);
    st.claim_vested(who(RECIPIENT), 150).result.unwrap();
    for now in [150u32, 160, 189, 190, 1_000] {
        let info = st.get_stream_info(who(RECIPIENT), now).unwrap();
        assert_eq!(info.total_deposit, 630);
        assert!(info.claimable_now >= 0);
        assert!(info.remaining_locked >= 0);
        assert_eq!(info.claimed_so_far + info.claimable_now + info.remaining_locked, info.total_deposit);
        assert!(info.percent_vested_bps <= 10_000);
        assert_eq!(info.percent_vested_bps, 5_555);
    }
    let end = st.get_stream_info(who(RECIPIENT), 190).unwrap();
    assert_eq!(end.remaining_locked, 0);
    assert_eq!(end.claimable_now, 630 - 350);

    let fresh = fresh_stream(7, 30, 90, 100);
    for (now, claimable) in [(100u32, 0i128), (129, 0), (130, 210), (160, 420)] {
        let info = fresh.get_stream_info(who(RECIPIENT), now).unwrap();
        assert_eq!(info.claimable_now, claimable);
        assert_eq!(info.remaining_locked, 630 - claimable);
        assert_eq!(info.percent_vested_bps, 0);
    }
}

// ── cancellation conserves the balance ───────────────────────────────────────

#[test]
fn cancel_conserves_law() {
    for now in [100u32, 149, 150, 220, 300, 5_000] {
        let mut st = fresh_stream(10, 50, 200, 100);
        if now >= 230 {
            st.claim_vested(who(RECIPIENT), 230).result.unwrap();
        }
        let claimed = st.get_schedule(who(RECIPIENT)).unwrap().claimed_amount;
        let out = st.cancel_stream(who(SPONSOR), who(RECIPIENT), now);
        assert_eq!(out.result, Ok(()));
        let handed_out: i128 = transfers(&out).iter().map(|t| t.amount).sum();
        assert_eq!(handed_out, 2_000 - claimed);
        assert!(st.get_schedule(who(RECIPIENT)).is_none());
    }
}

#[test]
fn cancel_refund_goes_to_sponsor_and_event_reports_it() {
    let mut st = fresh_stream(10, 50, 200, 100);
    let out = st.cancel_stream(who(9), who(RECIPIENT), 200);
    assert_eq!(out.result, Err(VestingError::Unauthorized));
    assert!(transfers(&out).is_empty());
    assert!(st.get_schedule(who(RECIPIENT)).is_some());
    let out = st.cancel_stream(who(SPONSOR), who(RECIPIENT), 200);
    let ts = transfers(&out);
    assert_eq!(ts[0].to, Party::Holder(who(RECIPIENT)));
    assert_eq!(ts[0].amount, 1_000);
    assert_eq!(ts[1].to, Party::Holder(who(SPONSOR)));
    assert_eq!(ts[1].amount, 1_000);
    match out.effects.last().unwrap() {
        Effect::Emit(Event::StreamCancelled { refunded_amount, .. }) => assert_eq!(*refunded_amount, 1_000),
        _ => panic!("cancellation event expected"),
    }
}

// ── pause and resume ─────────────────────────────────────────────────────────

#[test]
fn pause_blocks_claims_and_resume_shifts_schedule() {
    let mut st = fresh_stream(10, 50, 200, 100);
    assert_eq!(st.pause_stream(who(9), who(RECIPIENT), 160).result, Err(VestingError::Unauthorized));
    assert_eq!(st.pause_stream(who(SPONSOR), who(RECIPIENT), 160).result, Ok(()));
    assert_eq!(st.pause_stream(who(SPONSOR), who(RECIPIENT), 161).result, Err(VestingError::StreamAlreadyPaused));
    assert_eq!(st.claim_vested(who(RECIPIENT), 170).result, Err(VestingError::NothingToClaim));
    assert_eq!(st.claimable_amount(who(RECIPIENT), 170), 0);
    assert_eq!(st.resume_stream(who(SPONSOR), who(RECIPIENT), 180).result, Ok(()));
    let s = st.get_schedule(who(RECIPIENT)).unwrap();
    assert_eq!(s.end_ledger, 320);
    assert_eq!(s.cliff_ledger, 170);
    assert_eq!(s.accumulated_pause_ledgers, 20);
    assert_eq!(s.last_claimed_ledger, 120);
    assert_eq!(s.start_ledger, 100);
    assert_eq!(s.total_deposited(), 2_000);
    assert_eq!(s.paused_at_ledger, None);
    assert_eq!(s.version, 3);
    assert_eq!(st.resume_stream(who(SPONSOR), who(RECIPIENT), 190).result, Err(VestingError::StreamNotPaused));
    assert_eq!(st.pause_stream(who(SPONSOR), who(5), 190).result, Err(VestingError::ScheduleNotFound));
}

// ── recipient transfer ───────────────────────────────────────────────────────

#[test]
fn transfer_recipient_moves_the_stream() {
    let mut st = fresh_stream(10, 50, 200, 100);
    assert_eq!(st.transfer_recipient(who(RECIPIENT), who(RECIPIENT)).result, Err(VestingError::InvalidRecipient));
    assert_eq!(st.transfer_recipient(who(RECIPIENT), who(SPONSOR)).result, Err(VestingError::InvalidRecipient));
    assert_eq!(st.transfer_recipient(who(8), who(9)).result, Err(VestingError::ScheduleNotFound));
    assert_eq!(st.transfer_recipient(who(RECIPIENT), who(3)).result, Ok(()));
    assert!(st.get_schedule(who(RECIPIENT)).is_none());
    let s = st.get_schedule(who(3)).unwrap();
    assert_eq!(s.rate_per_ledger, 10);
    assert_eq!(s.version, 2);
    st.create_vesting_stream(who(SPONSOR), who(4), who(TOKEN), 10, 50, 200, 100).result.unwrap();
    assert_eq!(st.transfer_recipient(who(3), who(4)).result, Err(VestingError::ScheduleAlreadyExists));
}

// ── drains and clawback ──────────────────────────────────────────────────────

#[test]
fn drain_expired_stream_after_delay() {
    let mut st = fresh_stream(10, 50, 200, 100);
    st.claim_vested(who(RECIPIENT), 200).result.unwrap();
    assert_eq!(st.drain_expired_stream(who(77), who(RECIPIENT), 299).result, Err(VestingError::StreamNotExpired));
    assert_eq!(
        st.drain_expired_stream(who(77), who(RECIPIENT), 300 + DRAIN_DELAY_LEDGERS - 1).result,
        Err(VestingError::DrainDelayNotExpired)
    );
    let out = st.drain_expired_stream(who(77), who(RECIPIENT), 300 + DRAIN_DELAY_LEDGERS);
    assert_eq!(out.result, Ok(()));
    let ts = transfers(&out);
    assert_eq!(ts, vec![Transfer { token: who(TOKEN), from: Party::Vault, to: Party::Holder(who(SPONSOR)), amount: 1_000 }]);
    assert!(matches!(out.effects[0], Effect::Transfer(_)));
    assert!(st.get_schedule(who(RECIPIENT)).is_none());
    assert_eq!(st.drain_expired_stream(who(77), who(RECIPIENT), u32::MAX).result, Err(VestingError::ScheduleNotFound));
}

#[test]
fn drain_ledger_overflow_is_reported() {
    let mut st = fresh_stream(1, 10, 200, u32::MAX - 300);
    let out = st.drain_expired_stream(who(77), who(RECIPIENT), u32::MAX);
    assert_eq!(out.result, Err(VestingError::DepositOverflow));
    // the sponsor's variant saturates instead, so the delay never passes
    let out = st.emergency_drain(who(SPONSOR), who(RECIPIENT), u32::MAX);
    assert_eq!(out.result, Ok(()));
}

#[test]
fn emergency_drain_pays_the_sponsor() {
    let mut st = fresh_stream(10, 50, 200, 100);
    assert_eq!(st.emergency_drain(who(SPONSOR), who(RECIPIENT), 250).result, Err(VestingError::StreamNotExpired));
    assert_eq!(st.emergency_drain(who(SPONSOR), who(RECIPIENT), 400).result, Err(VestingError::DrainDelayNotExpired));
    let out = st.emergency_drain(who(9), who(RECIPIENT), 300 + DRAIN_DELAY_LEDGERS);
    assert_eq!(out.result, Ok(()));
    assert!(matches!(out.effects[0], Effect::RequireAuth(a) if a == who(9)));
    let ts = transfers(&out);
    assert_eq!(ts.len(), 1);
    assert_eq!(ts[0].amount, 2_000);
    assert_eq!(ts[0].to, Party::Holder(who(SPONSOR)));
    match out.effects.last().unwrap() {
        Effect::Emit(Event::EmergencyDrain { sponsor, amount, .. }) => {
            assert_eq!(*sponsor, who(SPONSOR));
            assert_eq!(*amount, 2_000);
        },
        _ => panic!("drain event expected"),
    }
    assert!(st.get_schedule(who(RECIPIENT)).is_none());
}

#[test]
fn clawback_requires_token_support() {
    let mut st = fresh_stream(10, 50, 200, 100);
    let out = st.clawback_stream(who(9), who(RECIPIENT), b"compliance".to_vec(), true);
    assert_eq!(out.result, Err(VestingError::Unauthorized));
    assert!(transfers(&out).is_empty());
    assert!(st.get_schedule(who(RECIPIENT)).is_some());
    let out = st.clawback_stream(who(SPONSOR), who(RECIPIENT), b"compliance".to_vec(), false);
    assert_eq!(out.result, Err(VestingError::ClawbackNotSupported));
    assert!(st.get_schedule(who(RECIPIENT)).is_some());
    st.claim_vested(who(RECIPIENT), 160).result.unwrap();
    let out = st.clawback_stream(who(SPONSOR), who(RECIPIENT), b"compliance".to_vec(), true);
    assert_eq!(out.result, Ok(()));
    assert_eq!(transfers(&out)[0].amount, 1_400);
    assert!(st.get_schedule(who(RECIPIENT)).is_none());
    let out = st.clawback_stream(who(SPONSOR), who(RECIPIENT), Vec::new(), true);
    assert_eq!(out.result, Err(VestingError::ScheduleNotFound));
}

// ── views ────────────────────────────────────────────────────────────────────

#[test]
fn status_and_stats_follow_the_ledger() {
    let st = fresh_stream(10, 50, 200, 100);
    assert_eq!(st.get_status(who(RECIPIENT), 149), Some(StreamStatus::PreCliff));
    assert_eq!(st.get_status(who(RECIPIENT), 150), Some(StreamStatus::Active));
    assert_eq!(st.get_status(who(RECIPIENT), 300), Some(StreamStatus::Expired));
    assert_eq!(st.get_status(who(9), 300), None);
    let stats = st.get_stats(who(RECIPIENT), 170).unwrap();
    assert_eq!(stats.total_deposited, 2_000);
    assert_eq!(stats.total_claimed, 0);
    assert_eq!(stats.remaining, 2_000);
    assert_eq!(stats.claimable_now, 700);
    assert!(st.get_stats(who(9), 170).is_none());
}

#[test]
fn basis_points_formula() {
    assert_eq!(basis_points(1_000, 2_000), 5_000);
    assert_eq!(basis_points(1, 3), 3_333);
    assert_eq!(basis_points(0, 3), 0);
    assert_eq!(basis_points(5, 0), 0);
    assert_eq!(basis_points(i128::MAX / 2, i128::MAX), 5_000);
    assert_eq!(basis_points(10, 5), 10_000);
}

// ── admin configuration ──────────────────────────────────────────────────────

#[test]
fn initialize_once_and_fee_limit() {
    let mut st = VestingDrips::new();
    assert_eq!(st.initialize(who(40), 501, who(41)).result, Err(VestingError::InvalidRate));
    assert_eq!(st.initialize(who(40), 500, who(41)).result, Ok(()));
    assert_eq!(st.admin, Some(who(40)));
    assert_eq!(st.initialize(who(40), 0, who(41)).result, Err(VestingError::AlreadyInitialized));
    assert_eq!(st.set_fee(who(99), 10, who(42)).result, Err(VestingError::Unauthorized));
    assert_eq!(st.set_fee(who(40), 600, who(42)).result, Err(VestingError::InvalidRate));
    assert_eq!(st.set_fee(who(40), 10, who(42)).result, Ok(()));
    assert_eq!(st.fee_bps, 10);
    assert_eq!(st.treasury, Some(who(42)));
}

#[test]
fn admin_transfer_and_upgrade() {
    let mut st = VestingDrips::new();
    let hash = WasmHash { bytes: [7u8; 32] };
    assert_eq!(st.upgrade(who(40), hash).result, Err(VestingError::Unauthorized));
    st.initialize(who(40), 0, who(41)).result.unwrap();
    let out = st.upgrade(who(40), hash);
    assert_eq!(out.result, Ok(()));
    assert!(matches!(out.effects[2], Effect::UpdateWasm(h) if h.bytes == [7u8; 32]));
    assert_eq!(st.transfer_admin(who(41), who(43)).result, Err(VestingError::Unauthorized));
    assert_eq!(st.transfer_admin(who(40), who(43)).result, Ok(()));
    assert_eq!(st.admin, Some(who(43)));
}

#[test]
fn allowlist_gates_tokens_and_empty_list_is_permissive() {
    let mut st = VestingDrips::new();
    let (a, b) = (who(500), who(501));
    assert_eq!(st.add_allowed_token(who(40), a).result, Err(VestingError::Unauthorized));
    assert!(st.get_allowed_tokens().is_empty());
    st.initialize(who(40), 0, who(41)).result.unwrap();
    st.add_allowed_token(who(40), a).result.unwrap();
    st.add_allowed_token(who(40), a).result.unwrap();
    assert_eq!(st.get_allowed_tokens(), vec![a]);
    let out = st.create_vesting_stream(who(SPONSOR), who(RECIPIENT), b, 10, 50, 200, 100);
    assert_eq!(out.result, Err(VestingError::TokenNotAllowed));
    assert_eq!(st.remove_allowed_token(who(41), a).result, Err(VestingError::Unauthorized));
    assert_eq!(st.get_allowed_tokens(), vec![a]);
    st.remove_allowed_token(who(40), a).result.unwrap();
    assert!(st.get_allowed_tokens().is_empty());
    let out = st.create_vesting_stream(who(SPONSOR), who(RECIPIENT), b, 10, 50, 200, 100);
    assert_eq!(out.result, Ok(()));
}

#[test]
fn allowlist_list_operations() {
    let (a, b, c) = (who(1), who(2), who(3));
    let mut list = vec![a, b, a, c];
    assert!(allowlist::is_token_allowed(&list, &b));
    allowlist::remove_allowed_token(&mut list, &a);
    assert_eq!(list, vec![b, c]);
    assert!(!allowlist::is_token_allowed(&list, &a));
    allowlist::add_allowed_token(&mut list, &b);
    assert_eq!(list, vec![b, c]);
    allowlist::add_allowed_token(&mut list, &a);
    assert_eq!(list, vec![b, c, a]);
    assert!(allowlist::is_token_allowed(&Vec::new(), &a));
}

// ── milestone streams ────────────────────────────────────────────────────────

#[test]
fn milestone_validation() {
    assert_eq!(validate_milestones(&vec![]).unwrap_err(), VestingError::InvalidMilestones);
    assert_eq!(validate_milestones(&vec![(10, 5_000), (10, 5_000)]).unwrap_err(), VestingError::InvalidMilestones);
    assert_eq!(validate_milestones(&vec![(0, 10_000)]).unwrap_err(), VestingError::InvalidMilestones);
    assert_eq!(validate_milestones(&vec![(10, 5_000), (20, 4_999)]).unwrap_err(), VestingError::InvalidMilestones);
    assert_eq!(validate_milestones(&vec![(10, u32::MAX), (20, 1)]).unwrap_err(), VestingError::InvalidMilestones);
    let many: Vec<(u32, u32)> = (1..=21).map(|i| (i, if i == 1 { 10_000 } else { 0 })).collect();
    assert_eq!(validate_milestones(&many).unwrap_err(), VestingError::InvalidMilestones);
    let ok = validate_milestones(&vec![(10, 2_500), (20, 7_500)]).unwrap();
    assert_eq!(ok.len(), 2);
    assert_eq!(ok[1].bps_unlock, 7_500);
}

#[test]
fn milestone_claims_unlock_in_steps() {
    let mut st = VestingDrips::new();
    let out = st.create_milestone_stream(who(SPONSOR), who(RECIPIENT), who(TOKEN), vec![(150, 2_500), (200, 2_500), (300, 5_000)], 300, 1_000);
    assert_eq!(out.result, Ok(()));
    assert_eq!(transfers(&out)[0].amount, 1_000);
    let again = st.create_milestone_stream(who(SPONSOR), who(RECIPIENT), who(TOKEN), vec![(150, 10_000)], 300, 1_000);
    assert_eq!(again.result, Err(VestingError::ScheduleAlreadyExists));
    assert_eq!(st.claim_milestone(who(RECIPIENT), 149).result, Err(VestingError::NothingToClaim));
    assert_eq!(st.claim_milestone(who(RECIPIENT), 210).result, Ok(500));
    assert_eq!(st.claim_milestone(who(RECIPIENT), 210).result, Err(VestingError::NothingToClaim));
    assert_eq!(st.claim_milestone(who(RECIPIENT), 300).result, Ok(500));
    assert!(!st.milestone_schedules.contains_key(&who(RECIPIENT)));
    assert_eq!(st.claim_milestone(who(RECIPIENT), 300).result, Err(VestingError::ScheduleNotFound));
}

#[test]
fn milestone_amounts_round_down() {
    let mut st = VestingDrips::new();
    st.create_milestone_stream(who(SPONSOR), who(RECIPIENT), who(TOKEN), vec![(10, 3_333), (20, 3_333), (30, 3_334)], 30, 101)
        .result
        .unwrap();
    // 101 * 3333 / 10000 = 33 for each of the first two, 101 * 3334 / 10000 = 33
    assert_eq!(st.claim_milestone(who(RECIPIENT), 30).result, Ok(99));
}

#[test]
fn milestone_creation_checks_order() {
    let mut st = VestingDrips::new();
    let out = st.create_milestone_stream(who(SPONSOR), who(SPONSOR), who(TOKEN), vec![(10, 10_000)], 30, 1_000);
    assert_eq!(out.result, Err(VestingError::InvalidRecipient));
    let out = st.create_milestone_stream(who(SPONSOR), who(RECIPIENT), who(TOKEN), vec![(10, 10_000)], 30, 99);
    assert_eq!(out.result, Err(VestingError::DepositBelowMinimum));
    assert!(out.effects.is_empty());
}

// ── variable-rate streams ────────────────────────────────────────────────────

#[test]
fn variable_claimable_formula() {
    let segs = vec![RateSegment { end_ledger: 200, rate: 10 }, RateSegment { end_ledger: 300, rate: 20 }];
    assert_eq!(compute_variable_claimable(&segs, 100, 250, 100), 10 * 100 + 20 * 50);
    assert_eq!(compute_variable_claimable(&segs, 150, 180, 100), 300);
    assert_eq!(compute_variable_claimable(&segs, 100, 100, 100), 0);
    assert_eq!(compute_variable_claimable(&segs, 250, 300, 100), 1_000);
}

#[test]
fn variable_stream_claims_sum_to_deposit() {
    let mut st = VestingDrips::new();
    let out = st.create_variable_stream(who(SPONSOR), who(RECIPIENT), who(TOKEN), 20, vec![(200, 10), (300, 20)], 100);
    assert_eq!(out.result, Ok(()));
    assert_eq!(transfers(&out)[0].amount, 3_000);
    assert_eq!(st.claim_variable_vested(who(RECIPIENT), 110).result, Err(VestingError::CliffNotReached));
    assert_eq!(st.claimable_variable_amount(who(RECIPIENT), 250), 2_000);
    assert_eq!(st.claim_variable_vested(who(RECIPIENT), 250).result, Ok(2_000));
    assert_eq!(st.claim_variable_vested(who(RECIPIENT), 250).result, Err(VestingError::NothingToClaim));
    assert_eq!(st.claim_variable_vested(who(RECIPIENT), 400).result, Ok(1_000));
    assert!(!st.variable_schedules.contains_key(&who(RECIPIENT)));
    assert_eq!(st.claim_variable_vested(who(RECIPIENT), 400).result, Err(VestingError::ScheduleNotFound));
}

#[test]
fn variable_stream_validation() {
    let mut st = VestingDrips::new();
    let r = |st: &mut VestingDrips, segs: Vec<(u32, i128)>| {
        st.create_variable_stream(who(SPONSOR), who(RECIPIENT), who(TOKEN), 0, segs, 100).result
    };
    assert_eq!(r(&mut st, vec![]), Err(VestingError::InvalidSegments));
    assert_eq!(r(&mut st, vec![(200, 0)]), Err(VestingError::InvalidSegments));
    assert_eq!(r(&mut st, vec![(100, 5)]), Err(VestingError::InvalidSegments));
    assert_eq!(r(&mut st, vec![(200, 5), (150, 5)]), Err(VestingError::InvalidSegments));
    assert_eq!(r(&mut st, vec![(200, i128::MAX)]), Err(VestingError::DepositOverflow));
    assert_eq!(r(&mut st, vec![(101, i128::MAX), (102, 1)]), Err(VestingError::DepositOverflow));
    let many: Vec<(u32, i128)> = (1..=11).map(|i| (100 + i, 1)).collect();
    assert_eq!(r(&mut st, many), Err(VestingError::InvalidSegments));
    st.create_vesting_stream(who(SPONSOR), who(RECIPIENT), who(TOKEN), 10, 50, 200, 100).result.unwrap();
    assert_eq!(r(&mut st, vec![(200, 5)]), Err(VestingError::ScheduleAlreadyExists));
}

// ── errors, addresses, tables ────────────────────────────────────────────────

#[test]
fn error_codes_are_pinned_and_distinct() {
    let mut seen = Vec::new();
    for code in 1..=23u32 {
        let e = VestingError::from_code(code).unwrap();
        assert_eq!(e.code(), code);
        assert!(!seen.contains(&e));
        seen.push(e);
    }
    assert_eq!(VestingError::from_code(0), None);
    assert_eq!(VestingError::from_code(24), None);
    assert_eq!(VestingError::ScheduleNotFound.code(), 1);
    assert_eq!(VestingError::DrainDelayNotExpired.code(), 11);
    assert_eq!(VestingError::StreamNotPaused.code(), 23);
}

#[test]
fn table_keeps_one_value_per_address() {
    let mut t: Table<u32> = Table::new();
    t.insert(who(1), 10);
    t.insert(who(2), 20);
    t.insert(who(1), 11);
    assert_eq!(t.len(), 2);
    assert_eq!(t.get(&who(1)), Some(&11));
    assert_eq!(t.remove(&who(1)), Some(11));
    assert_eq!(t.remove(&who(1)), None);
    assert!(t.contains_key(&who(2)));
    assert_eq!(t.len(), 1);
}

// ── preconditions: exactly the inputs whose arithmetic overflows ─────────────

#[test]
fn overflow_checks_match_the_arithmetic() {
    let st = fresh_stream(10, 50, 200, 100);
    let s = st.get_schedule(who(RECIPIENT)).unwrap().clone();
    assert_eq!(s.checked_total(), Some(2_000));
    assert!(s.is_owed_defined(150));
    assert!(s.is_claim_defined(150));
    assert!(s.is_cancel_defined(150));
    assert!(s.is_stats_defined(150));
    assert!(s.is_info_defined(150));

    let mut huge = s.clone();
    huge.rate_per_ledger = i128::MAX / 100;
    assert_eq!(huge.checked_total(), None);
    assert!(!huge.is_owed_defined(150));
    assert!(!huge.is_claim_defined(150));
    assert!(!huge.is_cancel_defined(150));
    assert!(!huge.is_stats_defined(150));
    assert!(!huge.is_cancel_defined(120));

    let mut ahead = s.clone();
    ahead.last_claimed_ledger = 180;
    assert!(!ahead.is_owed_defined(150));
    assert!(ahead.is_owed_defined(300));
}

#[test]
fn claim_on_an_inconsistent_schedule_follows_the_formula() {
    let mut st = fresh_stream(10, 50, 200, 100);
    let mut s = st.get_schedule(who(RECIPIENT)).unwrap().clone();
    s.last_claimed_ledger = 150;
    s.claimed_amount = 0;
    s.total_claimed = 0;
    st.schedules.insert(who(RECIPIENT), s);
    assert_eq!(st.claimable_amount(who(RECIPIENT), 160), 100);
    assert_eq!(st.claim_vested(who(RECIPIENT), 160).result, Ok(100));
    assert_eq!(st.get_schedule(who(RECIPIENT)).unwrap().claimed_amount, 100);
    assert_eq!(st.claim_vested(who(RECIPIENT), 300).result, Ok(1_900));
    assert!(st.get_schedule(who(RECIPIENT)).is_none());
}

#[test]
fn checked_variable_accrual_detects_overflow() {
    let segs = vec![RateSegment { end_ledger: 200, rate: 10 }, RateSegment { end_ledger: 300, rate: 20 }];
    assert_eq!(checked_variable_claimable(&segs, 150, 250, 100), Some(compute_variable_claimable(&segs, 150, 250, 100)));
    assert_eq!(checked_variable_claimable(&segs, 150, 250, 100), Some(500 + 1_000));
    let big = vec![RateSegment { end_ledger: 300, rate: i128::MAX / 10 }];
    assert_eq!(checked_variable_claimable(&big, 100, 250, 100), None);
    assert_eq!(checked_variable_claimable(&big, 100, 105, 100), Some(5 * (i128::MAX / 10)));
}

// ── pausing never pays more than the deposit ─────────────────────────────────

#[test]
fn paused_ledgers_do_not_accrue() {
    let mut st = fresh_stream(10, 50, 200, 100);
    st.pause_stream(who(SPONSOR), who(RECIPIENT), 160).result.unwrap();
    st.resume_stream(who(SPONSOR), who(RECIPIENT), 200).result.unwrap();
    let s = st.get_schedule(who(RECIPIENT)).unwrap();
    assert_eq!(s.end_ledger, 340);
    assert_eq!(st.claimable_amount(who(RECIPIENT), 220), 800);
    assert_eq!(st.claim_vested(who(RECIPIENT), 340).result, Ok(2_000));
    assert!(st.get_schedule(who(RECIPIENT)).is_none());

    let mut st = fresh_stream(10, 50, 200, 100);
    assert_eq!(st.claim_vested(who(RECIPIENT), 150).result, Ok(500));
    st.pause_stream(who(SPONSOR), who(RECIPIENT), 170).result.unwrap();
    st.resume_stream(who(SPONSOR), who(RECIPIENT), 230).result.unwrap();
    assert_eq!(st.claim_vested(who(RECIPIENT), 240).result, Ok(300));
    assert_eq!(st.claim_vested(who(RECIPIENT), 10_000).result, Ok(1_200));
}

#[test]
fn stats_show_nothing_claimable_while_paused() {
    let mut st = fresh_stream(10, 50, 200, 100);
    st.pause_stream(who(SPONSOR), who(RECIPIENT), 200).result.unwrap();
    let stats = st.get_stats(who(RECIPIENT), 250).unwrap();
    assert_eq!(stats.claimable_now, 0);
    assert_eq!(stats.claimable_now, st.claimable_amount(who(RECIPIENT), 250));
    assert_eq!(stats.total_deposited, 2_000);
    assert_eq!(stats.remaining, 2_000);
    st.resume_stream(who(SPONSOR), who(RECIPIENT), 250).result.unwrap();
    let stats = st.get_stats(who(RECIPIENT), 260).unwrap();
    assert_eq!(stats.claimable_now, 1_100);
    assert_eq!(stats.total_deposited, 2_000);
}

#[test]
fn variable_accrual_is_additive_whatever_the_rates() {
    let segs = vec![RateSegment { end_ledger: 200, rate: 10 }, RateSegment { end_ledger: 300, rate: -5 }];
    let whole = compute_variable_claimable(&segs, 100, 250, 100);
    assert_eq!(whole, 750);
    assert_eq!(compute_variable_claimable(&segs, 100, 150, 100) + compute_variable_claimable(&segs, 150, 250, 100), whole);
    assert_eq!(compute_variable_claimable(&segs, 100, 220, 100) + compute_variable_claimable(&segs, 220, 250, 100), whole);
    assert_eq!(compute_variable_claimable(&segs, 170, 170, 100), 0);
}

#[test]
fn cancel_while_paused_pays_only_ledgers_before_the_pause() {
    let mut st = fresh_stream(10, 50, 200, 100);
    st.pause_stream(who(SPONSOR), who(RECIPIENT), 200).result.unwrap();
    let out = st.cancel_stream(who(SPONSOR), who(RECIPIENT), 260);
    assert_eq!(out.result, Ok(()));
    let ts = transfers(&out);
    assert_eq!(ts[0].to, Party::Holder(who(RECIPIENT)));
    assert_eq!(ts[0].amount, 1_000);
    assert_eq!(ts[1].to, Party::Holder(who(SPONSOR)));
    assert_eq!(ts[1].amount, 1_000);

    let mut st = fresh_stream(10, 50, 200, 100);
    st.pause_stream(who(SPONSOR), who(RECIPIENT), 120).result.unwrap();
    let out = st.cancel_stream(who(SPONSOR), who(RECIPIENT), 260);
    let ts = transfers(&out);
    assert_eq!(ts.len(), 1);
    assert_eq!(ts[0].to, Party::Holder(who(SPONSOR)));
    assert_eq!(ts[0].amount, 2_000);
}
