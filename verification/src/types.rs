use vstd::prelude::*;

use crate::account::Account;

verus! {

/// A single rate segment of a variable-rate stream: the rate per ledger from
/// the end of the previous segment (or the stream start) up to `end_ledger`.
#[derive(Clone, Copy, Debug, PartialEq, Eq, Structural)]
pub struct RateSegment {
    /// Absolute ledger number at which this segment ends.
    pub end_ledger: u32,
    /// Tokens released per ledger in this segment (must be > 0).
    pub rate: i128,
}

/// A variable-rate vesting schedule stored per recipient.
#[derive(Clone, Debug)]
pub struct VariableRateSchedule {
    /// The token being streamed.
    pub token: Account,
    /// The sponsor (funder) who created this stream.
    pub sponsor: Account,
    /// Ordered list of rate segments.
    pub segments: Vec<RateSegment>,
    /// Ledger sequence at which the stream was created.
    pub start_ledger: u32,
    /// Ledger sequence the recipient must wait for before any claim is valid.
    pub cliff_ledger: u32,
    /// Ledger sequence at which the stream ends.
    pub end_ledger: u32,
    /// Total tokens deposited when the stream was created.
    pub total_deposited: i128,
    /// The last ledger up to which tokens have been claimed (moved on past
    /// any pause).
    pub last_claimed_ledger: u32,
    /// Running total of tokens transferred to the recipient.
    pub claimed_amount: i128,
    /// Alias for `claimed_amount`.
    pub total_claimed: i128,
    /// If set, the ledger at which the stream was paused.
    pub paused_at_ledger: Option<u32>,
}

/// A fixed-rate cliff vesting schedule stored per recipient.
///
/// `version` is a mutation counter: `1` at creation, incremented by every
/// state change (claim, cancellation, pause, resume, recipient transfer);
/// `0` marks a schedule written before versioning existed.
///
/// Paused ledgers never accrue: on resume the claim cursor, cliff and end
/// move by the paused duration, which is added to
/// `accumulated_pause_ledgers`, and the deposit is `rate_per_ledger *
/// (end_ledger - start_ledger - accumulated_pause_ledgers)`.
#[derive(Clone, Debug)]
pub struct VestingSchedule {
    /// The token being streamed.
    pub token: Account,
    /// The sponsor (funder) who created this stream.
    pub sponsor: Account,
    /// Tokens released per ledger once the cliff has passed.
    pub rate_per_ledger: i128,
    /// Ledger sequence at which the stream was created.
    pub start_ledger: u32,
    /// Ledger sequence the recipient must wait for before any claim is valid.
    pub cliff_ledger: u32,
    /// Ledger sequence at which the stream ends.
    pub end_ledger: u32,
    /// The last ledger up to which tokens have been claimed (moved on past
    /// any pause).
    pub last_claimed_ledger: u32,
    /// Running total of tokens transferred to the recipient.
    pub total_claimed: i128,
    /// Alias for `total_claimed`, incremented on every successful claim.
    pub claimed_amount: i128,
    /// Sub-unit remainder carried between claims (always 0 for integer rates).
    pub dust: i128,
    /// Optional metadata attached at creation (at most 256 bytes of UTF-8).
    pub metadata: Option<Vec<u8>>,
    /// If set, the ledger at which this stream was paused.
    pub paused_at_ledger: Option<u32>,
    /// Total ledgers the stream has been paused; they do not accrue.
    pub accumulated_pause_ledgers: u32,
    /// Mutation counter.
    pub version: u32,
}

/// Snapshot of a fixed-rate stream at a given ledger.
#[derive(Clone, Copy, Debug, PartialEq, Eq, Structural)]
pub struct StreamInfo {
    /// Total tokens deposited: `rate_per_ledger * (end_ledger - start_ledger -
    /// accumulated_pause_ledgers)`.
    pub total_deposit: i128,
    /// Tokens already transferred to the recipient.
    pub claimed_so_far: i128,
    /// Tokens claimable at the queried ledger (zero before the cliff).
    pub claimable_now: i128,
    /// `total_deposit - claimed_so_far - claimable_now`.
    pub remaining_locked: i128,
    /// Share of the deposit already claimed, in basis points (0-10000).
    pub percent_vested_bps: u32,
    /// Whether the cliff has been reached at the queried ledger.
    pub cliff_reached: bool,
    /// Whether the stream has ended at the queried ledger.
    pub stream_ended: bool,
}

/// A single milestone: at `ledger`, `bps_unlock` basis points of the deposit unlock.
#[derive(Clone, Copy, Debug, PartialEq, Eq, Structural)]
pub struct Milestone {
    /// Ledger sequence at which this milestone unlocks.
    pub ledger: u32,
    /// Share of the total deposit that unlocks, in basis points (10000 = 100%).
    pub bps_unlock: u32,
}

/// A milestone-based vesting schedule stored per recipient.
#[derive(Clone, Debug)]
pub struct MilestoneSchedule {
    /// The token being vested.
    pub token: Account,
    /// The sponsor (funder) who created this stream.
    pub sponsor: Account,
    /// Total tokens deposited at stream creation.
    pub total_deposited: i128,
    /// Milestones in strictly ascending ledger order.
    pub milestones: Vec<Milestone>,
    /// Index of the next unclaimed milestone.
    pub next_milestone_idx: u32,
    /// Ledger sequence at which the stream ends.
    pub end_ledger: u32,
    /// Running total of tokens transferred to the recipient.
    pub total_claimed: i128,
}

/// Lifecycle status of a fixed-rate stream.
#[derive(Clone, Copy, Debug, PartialEq, Eq, Structural)]
pub enum StreamStatus {
    /// The cliff has not yet been reached.
    PreCliff,
    /// Cliff passed; tokens drip until `end_ledger`.
    Active,
    /// `end_ledger` reached.
    Expired,
    /// The sponsor cancelled the stream.
    Cancelled,
    /// No schedule exists for the recipient.
    NotFound,
}

/// The compiled-in storage lifetime parameters.
#[derive(Clone, Copy, Debug, PartialEq, Eq, Structural)]
pub struct ContractConfig {
    /// Remaining lifetime (in ledgers) below which an entry's lifetime is extended.
    pub persistent_ledger_threshold: u32,
    /// Lifetime (in ledgers) an entry is extended to.
    pub persistent_bump_amount: u32,
}

/// The hash of a contract code blob.
#[derive(Clone, Copy, Debug)]
pub struct WasmHash {
    pub bytes: [u8; 32],
}

/// Remaining lifetime (in ledgers) below which a stored entry is extended.
pub const PERSISTENT_LEDGER_THRESHOLD: u32 = 3_000_000;

/// The lifetime (in ledgers) a stored entry is extended to.
pub const PERSISTENT_BUMP_AMOUNT: u32 = 3_110_400;

/// Minimum total deposit when none is configured.
pub const DEFAULT_MIN_DEPOSIT: i128 = 100;

/// Ledgers after `end_ledger` before an expired stream may be drained (~1 year).
pub const DRAIN_DELAY_LEDGERS: u32 = 3_153_600;

/// Maximum number of segments in a variable-rate stream.
pub const MAX_SEGMENTS: u32 = 10;

/// Maximum number of milestones in a milestone stream.
pub const MAX_MILESTONES: u32 = 20;

/// Maximum protocol fee, in basis points (5%).
pub const MAX_FEE_BPS: u32 = 500;

/// Maximum metadata length in bytes.
pub const MAX_METADATA_BYTES: u32 = 256;

} // verus!
