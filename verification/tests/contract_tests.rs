use vesting_cliff_drip_stream::account::Account;
use vesting_cliff_drip_stream::contract::VestingDrips;
use vesting_cliff_drip_stream::effects::{Effect, Outcome, Party, Transfer};
use vesting_cliff_drip_stream::error::VestingError;
use vesting_cliff_drip_stream::types::{VestingSchedule, PERSISTENT_BUMP_AMOUNT, PERSISTENT_LEDGER_THRESHOLD};

/// Ledger sequence at which every scenario starts.
const START: u32 = 100;

fn addr(n: u128) -> Account {
    Account { k0: n, k1: 0, k2: 0, k3: 0 }
}

/// Token balances of every party, as the token contract would hold them.
struct Balances {
    entries: Vec<(Party, Account, i128)>,
}

impl Balances {
    fn new() -> Self {
        Balances { entries: Vec::new() }
    }

    fn balance_of(&self, who: Party, token: Account) -> i128 {
        for (p, t, v) in &self.entries {
            if *p == who && *t == token {
                return *v;
            }
        }
        0
    }

    fn add(&mut self, who: Party, token: Account, delta: i128) {
        for e in self.entries.iter_mut() {
            if e.0 == who && e.1 == token {
                e.2 += delta;
                return;
            }
        }
        self.entries.push((who, token, delta));
    }

    fn mint(&mut self, to: Account, token: Account, amount: i128) {
        self.add(Party::Holder(to), token, amount);
    }

    fn balance(&self, who: Account, token: Account) -> i128 {
        self.balance_of(Party::Holder(who), token)
    }

    fn vault(&self, token: Account) -> i128 {
        self.balance_of(Party::Vault, token)
    }

    fn apply(&mut self, t: &Transfer) -> bool {
        if self.balance_of(t.from, t.token) < t.amount {
            return false;
        }
        self.add(t.from, t.token, -t.amount);
        self.add(t.to, t.token, t.amount);
        true
    }

    /// Carries out a call's transfers in order, as the host would.
    fn settle<T>(&mut self, outcome: Outcome<T>) -> Result<T, VestingError> {
        let before = self.entries.clone();
        for e in &outcome.effects {
            match e {
                Effect::TryTransfer(t) => {
                    if !self.apply(t) {
                        self.entries = before;
                        return Err(VestingError::TransferFailed);
                    }
                },
                Effect::Transfer(t) => {
                    assert!(self.apply(t), "transfer aborted");
                },
                _ => {},
            }
        }
        if outcome.result.is_err() {
            self.entries = before;
        }
        outcome.result
    }
}

struct Scenario {
    state: VestingDrips,
    bank: Balances,
    now: u32,
    token: Account,
}

impl Scenario {
    fn new() -> Self {
        Scenario { state: VestingDrips::new(), bank: Balances::new(), now: START, token: addr(900) }
    }

    fn advance(&mut self, ledgers: u32) {
        self.now += ledgers;
    }

    fn create(&mut self, sponsor: Account, recipient: Account, rate: i128, cliff: u32, total: u32) -> Result<(), VestingError> {
        let out = self.state.create_vesting_stream(sponsor, recipient, self.token, rate, cliff, total, self.now);
        self.bank.settle(out)
    }

    fn create_with_metadata(
        &mut self,
        sponsor: Account,
        recipient: Account,
        rate: i128,
        cliff: u32,
        total: u32,
        metadata: Option<Vec<u8>>,
    ) -> Result<(), VestingError> {
        let out = self.state.create_vesting_stream_with_metadata(sponsor, recipient, self.token, rate, cliff, total, metadata, self.now);
        self.bank.settle(out)
    }

    /// Mints `rate * total` to a fresh sponsor and creates the stream.
    fn funded_stream(&mut self, sponsor: Account, recipient: Account, rate: i128, cliff: u32, total: u32) {
        self.bank.mint(sponsor, self.token, rate * total as i128);
        self.create(sponsor, recipient, rate, cliff, total).unwrap();
    }

    fn claim(&mut self, recipient: Account) -> Result<i128, VestingError> {
        let out = self.state.claim_vested(recipient, self.now);
        self.bank.settle(out)
    }

    fn cancel(&mut self, sponsor: Account, recipient: Account) -> Result<(), VestingError> {
        let out = self.state.cancel_stream(sponsor, recipient, self.now);
        self.bank.settle(out)
    }

    fn schedule(&self, recipient: Account) -> Option<&VestingSchedule> {
        self.state.get_schedule(recipient)
    }

    fn balance(&self, who: Account) -> i128 {
        self.bank.balance(who, self.token)
    }
}

// ── cancellation ─────────────────────────────────────────────────────────────

#[test]
fn test_cancel_before_cliff_full_refund() {
    let mut sc = Scenario::new();
    let (sponsor, recipient) = (addr(1), addr(2));
    sc.bank.mint(sponsor, sc.token, 2_000);
    sc.create(sponsor, recipient, 10, 50, 200).unwrap();

    sc.advance(20);
    sc.cancel(sponsor, recipient).unwrap();

    assert_eq!(sc.balance(sponsor), 2_000);
    assert_eq!(sc.balance(recipient), 0);
    assert!(sc.schedule(recipient).is_none());
}

#[test]
fn test_cancel_after_cliff_splits_tokens() {
    let mut sc = Scenario::new();
    let (sponsor, recipient) = (addr(1), addr(2));
    sc.bank.mint(sponsor, sc.token, 2_000);
    sc.create(sponsor, recipient, 10, 50, 200).unwrap();

    sc.advance(100);
    sc.cancel(sponsor, recipient).unwrap();

    assert_eq!(sc.balance(recipient), 1_000);
    assert_eq!(sc.balance(sponsor), 1_000);
    assert!(sc.schedule(recipient).is_none());
}

#[test]
fn test_cancel_nonexistent_stream_fails() {
    let mut sc = Scenario::new();
    let err = sc.cancel(addr(1), addr(2)).unwrap_err();
    assert_eq!(err, VestingError::ScheduleNotFound);
}

// ── creation ─────────────────────────────────────────────────────────────────

#[test]
fn test_create_stream_success() {
    let mut sc = Scenario::new();
    let (sponsor, recipient) = (addr(1), addr(2));
    sc.bank.mint(sponsor, sc.token, 2_000);
    sc.create_with_metadata(sponsor, recipient, 10, 50, 200, None).unwrap();

    let schedule = sc.schedule(recipient).unwrap();
    assert_eq!(schedule.rate_per_ledger, 10);
    assert_eq!(schedule.start_ledger, 100);
    assert_eq!(schedule.cliff_ledger, 150);
    assert_eq!(schedule.end_ledger, 300);
    assert_eq!(schedule.last_claimed_ledger, 100);
    assert_eq!(schedule.metadata, None);

    assert_eq!(sc.balance(sponsor), 0);
    assert_eq!(sc.bank.vault(sc.token), 2_000);
}

#[test]
fn test_create_stream_zero_rate_fails() {
    let mut sc = Scenario::new();
    let err = sc.create_with_metadata(addr(1), addr(2), 0, 50, 200, None).unwrap_err();
    assert_eq!(err, VestingError::InvalidRate);
}

#[test]
fn test_create_stream_invalid_duration_fails() {
    let mut sc = Scenario::new();
    let err = sc.create_with_metadata(addr(1), addr(2), 10, 200, 200, None).unwrap_err();
    assert_eq!(err, VestingError::InvalidDuration);

    let err2 = sc.create_with_metadata(addr(1), addr(2), 10, 300, 200, None).unwrap_err();
    assert_eq!(err2, VestingError::InvalidDuration);
}

#[test]
fn test_create_duplicate_stream_fails() {
    let mut sc = Scenario::new();
    let (sponsor, recipient) = (addr(1), addr(2));
    sc.bank.mint(sponsor, sc.token, 10_000);
    sc.create_with_metadata(sponsor, recipient, 10, 50, 200, None).unwrap();

    let err = sc.create_with_metadata(sponsor, recipient, 10, 50, 200, None).unwrap_err();
    assert_eq!(err, VestingError::ScheduleAlreadyExists);
}

#[test]
fn test_two_recipients_claim_independently() {
    let mut sc = Scenario::new();
    let (sponsor, alice, bob) = (addr(1), addr(2), addr(3));
    sc.bank.mint(sponsor, sc.token, 4_000);
    sc.create_with_metadata(sponsor, alice, 10, 50, 200, None).unwrap();
    sc.create_with_metadata(sponsor, bob, 20, 30, 100, None).unwrap();

    sc.advance(60);

    let alice_claimed = sc.claim(alice).unwrap();
    assert_eq!(alice_claimed, 600);

    let bob_sched = sc.schedule(bob).unwrap();
    assert_eq!(bob_sched.last_claimed_ledger, 100);
    assert_eq!(sc.balance(bob), 0);
}

#[test]
fn test_cancel_one_recipient_other_unaffected() {
    let mut sc = Scenario::new();
    let (sponsor, alice, bob) = (addr(1), addr(2), addr(3));
    sc.bank.mint(sponsor, sc.token, 2_500);
    sc.create_with_metadata(sponsor, alice, 10, 50, 200, None).unwrap();
    sc.create_with_metadata(sponsor, bob, 5, 20, 100, None).unwrap();

    sc.cancel(sponsor, alice).unwrap();

    assert!(sc.schedule(alice).is_none());

    let bob_sched = sc.schedule(bob).unwrap();
    assert_eq!(bob_sched.rate_per_ledger, 5);
    assert_eq!(bob_sched.last_claimed_ledger, 100);

    sc.advance(20);
    let bob_claimed = sc.claim(bob).unwrap();
    assert_eq!(bob_claimed, 100);
    assert_eq!(sc.balance(bob), 100);
}

#[test]
fn test_storage_keys_are_per_recipient() {
    let mut sc = Scenario::new();
    let (sponsor, alice, bob) = (addr(1), addr(2), addr(3));
    sc.bank.mint(sponsor, sc.token, 10_000);
    sc.create_with_metadata(sponsor, alice, 7, 40, 150, None).unwrap();
    sc.create_with_metadata(sponsor, bob, 13, 60, 200, None).unwrap();

    let alice_sched = sc.schedule(alice).unwrap();
    let bob_sched = sc.schedule(bob).unwrap();

    assert_eq!(alice_sched.rate_per_ledger, 7);
    assert_eq!(alice_sched.cliff_ledger, 140);
    assert_eq!(alice_sched.end_ledger, 250);

    assert_eq!(bob_sched.rate_per_ledger, 13);
    assert_eq!(bob_sched.cliff_ledger, 160);
    assert_eq!(bob_sched.end_ledger, 300);
}

#[test]
fn test_create_with_metadata_stored_and_returned() {
    let mut sc = Scenario::new();
    let (sponsor, recipient) = (addr(1), addr(2));
    sc.bank.mint(sponsor, sc.token, 2_000);

    let label = b"grant:engineering-q1-2026".to_vec();
    sc.create_with_metadata(sponsor, recipient, 10, 50, 200, Some(label.clone())).unwrap();

    let schedule = sc.schedule(recipient).unwrap();
    assert_eq!(schedule.metadata, Some(label));
}

#[test]
fn test_create_with_none_metadata_stored_as_none() {
    let mut sc = Scenario::new();
    let (sponsor, recipient) = (addr(1), addr(2));
    sc.bank.mint(sponsor, sc.token, 2_000);
    sc.create_with_metadata(sponsor, recipient, 10, 50, 200, None).unwrap();

    let schedule = sc.schedule(recipient).unwrap();
    assert_eq!(schedule.metadata, None);
}

#[test]
fn test_create_empty_string_metadata_normalised_to_none() {
    let mut sc = Scenario::new();
    let (sponsor, recipient) = (addr(1), addr(2));
    sc.bank.mint(sponsor, sc.token, 2_000);
    sc.create_with_metadata(sponsor, recipient, 10, 50, 200, Some(Vec::new())).unwrap();

    let schedule = sc.schedule(recipient).unwrap();
    assert_eq!(schedule.metadata, None);
}

#[test]
fn test_create_metadata_exactly_256_bytes_accepted() {
    let mut sc = Scenario::new();
    let (sponsor, recipient) = (addr(1), addr(2));
    sc.bank.mint(sponsor, sc.token, 2_000);

    let label = "a".repeat(256).into_bytes();
    sc.create_with_metadata(sponsor, recipient, 10, 50, 200, Some(label.clone())).unwrap();

    let schedule = sc.schedule(recipient).unwrap();
    assert_eq!(schedule.metadata, Some(label));
}

#[test]
fn test_create_metadata_257_bytes_rejected() {
    let mut sc = Scenario::new();
    let too_long = "a".repeat(257).into_bytes();
    let err = sc.create_with_metadata(addr(1), addr(2), 10, 50, 200, Some(too_long)).unwrap_err();
    assert_eq!(err, VestingError::MetadataTooLong);
}

#[test]
fn test_metadata_immutable_after_creation() {
    let mut sc = Scenario::new();
    let (sponsor, recipient) = (addr(1), addr(2));
    sc.bank.mint(sponsor, sc.token, 2_000);

    let label = b"immutable-label".to_vec();
    sc.create_with_metadata(sponsor, recipient, 10, 50, 200, Some(label.clone())).unwrap();

    sc.advance(60);
    sc.claim(recipient).unwrap();

    let schedule = sc.schedule(recipient).unwrap();
    assert_eq!(schedule.metadata, Some(label));
}

// ── edge cases ───────────────────────────────────────────────────────────────

#[test]
fn test_minimal_cliff_one_ledger() {
    let mut sc = Scenario::new();
    let (sponsor, recipient) = (addr(1), addr(2));
    sc.funded_stream(sponsor, recipient, 10, 1, 10);

    sc.advance(1);
    let claimed = sc.claim(recipient).unwrap();
    assert_eq!(claimed, 10);
    assert_eq!(sc.balance(recipient), 10);
}

#[test]
fn test_multiple_independent_streams() {
    let mut sc = Scenario::new();
    let (sponsor, recipient_a, recipient_b) = (addr(1), addr(2), addr(3));
    sc.bank.mint(sponsor, sc.token, 5_000);

    sc.create(sponsor, recipient_a, 10, 50, 200).unwrap();
    sc.create(sponsor, recipient_b, 15, 20, 200).unwrap();

    sc.advance(70);

    let claimed_a = sc.claim(recipient_a).unwrap();
    let claimed_b = sc.claim(recipient_b).unwrap();

    assert_eq!(claimed_a, 700);
    assert_eq!(claimed_b, 1_050);
    assert_eq!(sc.balance(recipient_a), 700);
    assert_eq!(sc.balance(recipient_b), 1_050);
}

#[test]
fn test_claim_exactly_at_end_removes_schedule() {
    let mut sc = Scenario::new();
    let (sponsor, recipient) = (addr(1), addr(2));
    sc.funded_stream(sponsor, recipient, 10, 10, 100);

    sc.advance(100);
    sc.claim(recipient).unwrap();

    assert!(sc.schedule(recipient).is_none());
}

#[test]
fn test_incremental_claims_sum_to_total() {
    let mut sc = Scenario::new();
    let (sponsor, recipient) = (addr(1), addr(2));
    sc.funded_stream(sponsor, recipient, 5, 20, 100);

    sc.advance(20);
    sc.claim(recipient).unwrap();
    sc.advance(40);
    sc.claim(recipient).unwrap();
    sc.advance(40);
    sc.claim(recipient).unwrap();

    assert_eq!(sc.balance(recipient), 500);
}

#[test]
fn test_regression_cliff_equals_total_minus_one() {
    let mut sc = Scenario::new();
    let (sponsor, recipient) = (addr(1), addr(2));
    sc.funded_stream(sponsor, recipient, 10, 99, 100);

    sc.advance(100);
    let claimed = sc.claim(recipient).unwrap();
    assert_eq!(claimed, 1_000);
    assert_eq!(sc.balance(recipient), 1_000);
    assert!(sc.schedule(recipient).is_none());
}

#[test]
fn test_regression_rate_of_one() {
    let mut sc = Scenario::new();
    let (sponsor, recipient) = (addr(1), addr(2));
    sc.funded_stream(sponsor, recipient, 1, 10, 100);

    sc.advance(10);
    let claimed = sc.claim(recipient).unwrap();
    assert_eq!(claimed, 10);
    assert_eq!(sc.balance(recipient), 10);
}

#[test]
fn test_regression_claim_well_past_end_caps_correctly() {
    let mut sc = Scenario::new();
    let (sponsor, recipient) = (addr(1), addr(2));
    sc.funded_stream(sponsor, recipient, 10, 10, 50);

    sc.advance(10_000);
    let claimed = sc.claim(recipient).unwrap();
    assert_eq!(claimed, 500);
    assert_eq!(sc.balance(recipient), 500);
}

#[test]
fn test_regression_claimable_amount_zero_before_cliff() {
    let mut sc = Scenario::new();
    let (sponsor, recipient) = (addr(1), addr(2));
    sc.funded_stream(sponsor, recipient, 10, 50, 100);

    sc.advance(30);
    assert_eq!(sc.state.claimable_amount(recipient, sc.now), 0);

    sc.advance(20);
    assert_eq!(sc.state.claimable_amount(recipient, sc.now), 500);
}

#[test]
fn test_regression_is_cliff_passed_boundary() {
    let mut sc = Scenario::new();
    let (sponsor, recipient) = (addr(1), addr(2));
    sc.funded_stream(sponsor, recipient, 5, 50, 100);

    sc.advance(49);
    assert!(!sc.state.is_cliff_passed(recipient, sc.now));

    sc.advance(1);
    assert!(sc.state.is_cliff_passed(recipient, sc.now));
}

#[test]
fn test_regression_negative_rate_rejected() {
    let mut sc = Scenario::new();
    let (sponsor, recipient) = (addr(1), addr(2));
    sc.bank.mint(sponsor, sc.token, 1_000);

    let err = sc.create(sponsor, recipient, -1, 50, 100).unwrap_err();
    assert_eq!(err, VestingError::InvalidRate);
}

// ── versioning ───────────────────────────────────────────────────────────────

#[test]
fn test_new_schedule_has_version_1() {
    let mut sc = Scenario::new();
    let (sponsor, recipient) = (addr(1), addr(2));
    sc.bank.mint(sponsor, sc.token, 2_000);
    sc.create(sponsor, recipient, 10, 50, 200).unwrap();

    let schedule = sc.schedule(recipient).unwrap();
    assert_eq!(schedule.version, 1, "new schedule must have version = 1");
}

fn legacy_schedule(token: Account) -> VestingSchedule {
    VestingSchedule {
        version: 0,
        token,
        sponsor: addr(77),
        rate_per_ledger: 10,
        start_ledger: 100,
        cliff_ledger: 150,
        end_ledger: 300,
        last_claimed_ledger: 100,
        total_claimed: 0,
        claimed_amount: 0,
        dust: 0,
        metadata: None,
        paused_at_ledger: None,
        accumulated_pause_ledgers: 0,
    }
}

#[test]
fn test_migrate_schedule_version_0_to_1() {
    let mut sc = Scenario::new();
    let admin = addr(50);
    let recipient = addr(2);
    sc.state.schedules.insert(recipient, legacy_schedule(sc.token));

    let before = sc.schedule(recipient).unwrap().clone();
    assert_eq!(before.version, 0);

    sc.state.migrate_schedule(admin, recipient).result.unwrap();

    let after = sc.schedule(recipient).unwrap();
    assert_eq!(after.version, 1, "migrate_schedule must set version = 1");

    assert_eq!(after.rate_per_ledger, before.rate_per_ledger);
    assert_eq!(after.start_ledger, before.start_ledger);
    assert_eq!(after.cliff_ledger, before.cliff_ledger);
    assert_eq!(after.end_ledger, before.end_ledger);
    assert_eq!(after.last_claimed_ledger, before.last_claimed_ledger);
}

#[test]
fn test_migrate_schedule_already_versioned_is_noop() {
    let mut sc = Scenario::new();
    let admin = addr(50);
    let (sponsor, recipient) = (addr(1), addr(2));
    sc.bank.mint(sponsor, sc.token, 2_000);
    sc.create(sponsor, recipient, 10, 50, 200).unwrap();

    assert_eq!(sc.schedule(recipient).unwrap().version, 1);

    sc.state.migrate_schedule(admin, recipient).result.unwrap();

    assert_eq!(sc.schedule(recipient).unwrap().version, 1);
}

#[test]
fn test_migrate_schedule_not_found_returns_error() {
    let mut sc = Scenario::new();
    let admin = addr(50);
    let unknown = addr(3);

    let err = sc.state.migrate_schedule(admin, unknown).result.unwrap_err();
    assert_eq!(err, VestingError::ScheduleNotFound);
}

#[test]
fn test_create_stream_sponsor_equals_recipient_fails() {
    let mut sc = Scenario::new();
    let alice = addr(1);

    let err = sc.create(alice, alice, 10, 50, 200).unwrap_err();
    assert_eq!(
        err,
        VestingError::InvalidRecipient,
        "sponsor == recipient must return InvalidRecipient (code 10)"
    );
}

#[test]
fn test_invalid_recipient_error_code_is_10() {
    assert_eq!(VestingError::InvalidRecipient.code(), 10);
}

#[test]
fn test_create_stream_distinct_sponsor_and_recipient_succeeds() {
    let mut sc = Scenario::new();
    let (sponsor, recipient) = (addr(1), addr(2));
    sc.bank.mint(sponsor, sc.token, 2_000);

    sc.create(sponsor, recipient, 10, 50, 200).unwrap();

    assert!(sc.schedule(recipient).is_some());
}

// ── views ────────────────────────────────────────────────────────────────────

#[test]
fn test_claimable_amount_before_cliff_is_zero() {
    let mut sc = Scenario::new();
    let (sponsor, recipient) = (addr(1), addr(2));
    sc.bank.mint(sponsor, sc.token, 2_000);
    sc.create(sponsor, recipient, 10, 50, 200).unwrap();

    sc.advance(30);
    assert_eq!(sc.state.claimable_amount(recipient, sc.now), 0);
}

#[test]
fn test_claimable_amount_after_cliff() {
    let mut sc = Scenario::new();
    let (sponsor, recipient) = (addr(1), addr(2));
    sc.bank.mint(sponsor, sc.token, 2_000);
    sc.create(sponsor, recipient, 10, 50, 200).unwrap();

    sc.advance(75);
    assert_eq!(sc.state.claimable_amount(recipient, sc.now), 750);
}

#[test]
fn test_is_cliff_passed() {
    let mut sc = Scenario::new();
    let (sponsor, recipient) = (addr(1), addr(2));
    sc.bank.mint(sponsor, sc.token, 2_000);
    sc.create(sponsor, recipient, 10, 50, 200).unwrap();

    assert!(!sc.state.is_cliff_passed(recipient, sc.now));
    sc.advance(50);
    assert!(sc.state.is_cliff_passed(recipient, sc.now));
}

#[test]
fn test_get_schedule_returns_none_after_completion() {
    let mut sc = Scenario::new();
    let (sponsor, recipient) = (addr(1), addr(2));
    sc.bank.mint(sponsor, sc.token, 2_000);
    sc.create(sponsor, recipient, 10, 50, 200).unwrap();

    sc.advance(300);
    sc.claim(recipient).unwrap();

    assert!(sc.schedule(recipient).is_none());
}

#[test]
fn test_get_stream_info_returns_none_for_unknown_recipient() {
    let sc = Scenario::new();
    assert!(sc.state.get_stream_info(addr(9), sc.now).is_none());
}

#[test]
fn test_get_stream_info_before_cliff() {
    let mut sc = Scenario::new();
    let (sponsor, recipient) = (addr(1), addr(2));
    sc.bank.mint(sponsor, sc.token, 2_000);
    sc.create(sponsor, recipient, 10, 50, 200).unwrap();

    let info = sc.state.get_stream_info(recipient, sc.now).unwrap();
    assert_eq!(info.total_deposit, 2_000);
    assert_eq!(info.claimed_so_far, 0);
    assert_eq!(info.claimable_now, 0);
    assert_eq!(info.remaining_locked, 2_000);
    assert_eq!(info.percent_vested_bps, 0);
    assert!(!info.cliff_reached);
    assert!(!info.stream_ended);
}

#[test]
fn test_get_stream_info_at_cliff() {
    let mut sc = Scenario::new();
    let (sponsor, recipient) = (addr(1), addr(2));
    sc.bank.mint(sponsor, sc.token, 2_000);
    sc.create(sponsor, recipient, 10, 50, 200).unwrap();

    sc.advance(50);

    let info = sc.state.get_stream_info(recipient, sc.now).unwrap();
    assert_eq!(info.total_deposit, 2_000);
    assert_eq!(info.claimed_so_far, 0);
    assert_eq!(info.claimable_now, 500);
    assert_eq!(info.remaining_locked, 1_500);
    assert_eq!(info.percent_vested_bps, 0);
    assert!(info.cliff_reached);
    assert!(!info.stream_ended);
}

#[test]
fn test_get_stream_info_mid_stream_after_claim() {
    let mut sc = Scenario::new();
    let (sponsor, recipient) = (addr(1), addr(2));
    sc.bank.mint(sponsor, sc.token, 2_000);
    sc.create(sponsor, recipient, 10, 50, 200).unwrap();

    sc.advance(100);
    sc.claim(recipient).unwrap();

    let info = sc.state.get_stream_info(recipient, sc.now).unwrap();
    assert_eq!(info.total_deposit, 2_000);
    assert_eq!(info.claimed_so_far, 1_000);
    assert_eq!(info.claimable_now, 0);
    assert_eq!(info.remaining_locked, 1_000);
    assert_eq!(info.percent_vested_bps, 5_000);
    assert!(info.cliff_reached);
    assert!(!info.stream_ended);
}

#[test]
fn test_get_stream_info_at_stream_end() {
    let mut sc = Scenario::new();
    let (sponsor, recipient) = (addr(1), addr(2));
    sc.bank.mint(sponsor, sc.token, 2_000);
    sc.create(sponsor, recipient, 10, 50, 200).unwrap();

    sc.advance(250);

    let info = sc.state.get_stream_info(recipient, sc.now).unwrap();
    assert_eq!(info.total_deposit, 2_000);
    assert_eq!(info.claimed_so_far, 0);
    assert_eq!(info.claimable_now, 2_000);
    assert_eq!(info.remaining_locked, 0);
    assert!(info.cliff_reached);
    assert!(info.stream_ended);
}

#[test]
fn test_get_config_returns_compiled_in_constants() {
    let config = VestingDrips::get_config();
    assert_eq!(config.persistent_ledger_threshold, PERSISTENT_LEDGER_THRESHOLD);
    assert_eq!(config.persistent_bump_amount, PERSISTENT_BUMP_AMOUNT);
}

#[test]
fn cancelled_stream_is_gone_for_later_calls() {
    let mut sc = Scenario::new();
    let (sponsor, recipient) = (addr(1), addr(2));
    sc.funded_stream(sponsor, recipient, 10, 10, 100);
    assert_eq!(sc.cancel(sponsor, recipient), Ok(()));
    assert_eq!(sc.claim(recipient), Err(VestingError::ScheduleNotFound));
    assert_eq!(sc.cancel(sponsor, recipient), Err(VestingError::ScheduleNotFound));
}
