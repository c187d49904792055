use vstd::prelude::*;

verus! {

/// All error codes returned by the vesting contract.
///
/// The numeric code of each variant is pinned (see [`VestingError::code`]) so
/// that clients can switch on it across upgrades. Code 0 is reserved for
/// success by the host and is never used.
#[derive(Copy, Clone, Debug, PartialEq, Eq, Structural)]
pub enum VestingError {
    /// No active vesting schedule exists for the given recipient.
    ScheduleNotFound,
    /// The current ledger sequence is still below `cliff_ledger`.
    CliffNotReached,
    /// `total_duration` must be strictly greater than `cliff_duration`.
    InvalidDuration,
    /// The rate (or fee, or minimum deposit) is out of its allowed range.
    InvalidRate,
    /// A deposit or ledger computation would overflow.
    DepositOverflow,
    /// A vesting schedule already exists for this recipient.
    ScheduleAlreadyExists,
    /// The claimable amount is zero at the current ledger.
    NothingToClaim,
    /// The stream's `end_ledger` has not yet been reached.
    StreamNotExpired,
    /// A token transfer call failed.
    TransferFailed,
    /// The drain delay period has not yet elapsed.
    DrainDelayNotExpired,
    /// `sponsor` and `recipient` must be distinct addresses.
    InvalidRecipient,
    /// Caller is not the contract admin or stream sponsor.
    Unauthorized,
    /// `initialize` has already been called.
    AlreadyInitialized,
    /// `initialize` must be called before this operation.
    NotInitialized,
    /// Milestones are empty, too many, out of order, or do not sum to 10000 bps.
    InvalidMilestones,
    /// Total deposit is below the configured minimum deposit.
    DepositBelowMinimum,
    /// The version counter would overflow `u32::MAX`.
    VersionOverflow,
    /// The token does not support clawback.
    ClawbackNotSupported,
    /// Rate segments are empty, too many, out of order, or invalid.
    InvalidSegments,
    /// The metadata exceeds the 256-byte limit.
    MetadataTooLong,
    /// The token is not in the allowlist while the allowlist is enforced.
    TokenNotAllowed,
    /// The stream is already paused.
    StreamAlreadyPaused,
    /// The stream is not currently paused.
    StreamNotPaused,
}

/// The pinned numeric code of each error.
pub open spec fn error_code(e: VestingError) -> u32 {
    match e {
        VestingError::ScheduleNotFound => 1,
        VestingError::CliffNotReached => 2,
        VestingError::InvalidDuration => 3,
        VestingError::InvalidRate => 4,
        VestingError::DepositOverflow => 5,
        VestingError::ScheduleAlreadyExists => 6,
        VestingError::NothingToClaim => 7,
        VestingError::StreamNotExpired => 8,
        VestingError::TransferFailed => 9,
        VestingError::InvalidRecipient => 10,
        VestingError::DrainDelayNotExpired => 11,
        VestingError::Unauthorized => 12,
        VestingError::AlreadyInitialized => 13,
        VestingError::NotInitialized => 14,
        VestingError::InvalidMilestones => 15,
        VestingError::DepositBelowMinimum => 16,
        VestingError::VersionOverflow => 17,
        VestingError::ClawbackNotSupported => 18,
        VestingError::InvalidSegments => 19,
        VestingError::MetadataTooLong => 20,
        VestingError::TokenNotAllowed => 21,
        VestingError::StreamAlreadyPaused => 22,
        VestingError::StreamNotPaused => 23,
    }
}

impl VestingError {
    /// The pinned numeric code of this error, as clients see it.
    pub fn code(&self) -> (c: u32)
        ensures
            c == error_code(*self),
    {
        match self {
            VestingError::ScheduleNotFound => 1,
            VestingError::CliffNotReached => 2,
            VestingError::InvalidDuration => 3,
            VestingError::InvalidRate => 4,
            VestingError::DepositOverflow => 5,
            VestingError::ScheduleAlreadyExists => 6,
            VestingError::NothingToClaim => 7,
            VestingError::StreamNotExpired => 8,
            VestingError::TransferFailed => 9,
            VestingError::InvalidRecipient => 10,
            VestingError::DrainDelayNotExpired => 11,
            VestingError::Unauthorized => 12,
            VestingError::AlreadyInitialized => 13,
            VestingError::NotInitialized => 14,
            VestingError::InvalidMilestones => 15,
            VestingError::DepositBelowMinimum => 16,
            VestingError::VersionOverflow => 17,
            VestingError::ClawbackNotSupported => 18,
            VestingError::InvalidSegments => 19,
            VestingError::MetadataTooLong => 20,
            VestingError::TokenNotAllowed => 21,
            VestingError::StreamAlreadyPaused => 22,
            VestingError::StreamNotPaused => 23,
        }
    }

    /// The error whose pinned code is `code`, if any.
    pub fn from_code(code: u32) -> (r: Option<VestingError>)
        ensures
            r matches Some(e) ==> error_code(e) == code,
            r is None <==> (code == 0 || code > 23),
            forall|e: VestingError| #[trigger] error_code(e) == code ==> r == Some(e),
    {
        match code {
            1 => Some(VestingError::ScheduleNotFound),
            2 => Some(VestingError::CliffNotReached),
            3 => Some(VestingError::InvalidDuration),
            4 => Some(VestingError::InvalidRate),
            5 => Some(VestingError::DepositOverflow),
            6 => Some(VestingError::ScheduleAlreadyExists),
            7 => Some(VestingError::NothingToClaim),
            8 => Some(VestingError::StreamNotExpired),
            9 => Some(VestingError::TransferFailed),
            10 => Some(VestingError::InvalidRecipient),
            11 => Some(VestingError::DrainDelayNotExpired),
            12 => Some(VestingError::Unauthorized),
            13 => Some(VestingError::AlreadyInitialized),
            14 => Some(VestingError::NotInitialized),
            15 => Some(VestingError::InvalidMilestones),
            16 => Some(VestingError::DepositBelowMinimum),
            17 => Some(VestingError::VersionOverflow),
            18 => Some(VestingError::ClawbackNotSupported),
            19 => Some(VestingError::InvalidSegments),
            20 => Some(VestingError::MetadataTooLong),
            21 => Some(VestingError::TokenNotAllowed),
            22 => Some(VestingError::StreamAlreadyPaused),
            23 => Some(VestingError::StreamNotPaused),
            _ => None,
        }
    }
}

} // verus!
