use vstd::prelude::*;

use crate::account::Account;
use crate::error::VestingError;
use crate::types::WasmHash;

verus! {

/// One side of a token transfer.
#[derive(Clone, Copy, Debug, PartialEq, Eq, Structural)]
pub enum Party {
    /// The contract's own address, which holds every stream's deposit.
    Vault,
    /// Any other address.
    Holder(Account),
}

/// A movement of `amount` units of `token` from `from` to `to`.
#[derive(Clone, Copy, Debug, PartialEq, Eq, Structural)]
pub struct Transfer {
    pub token: Account,
    pub from: Party,
    pub to: Party,
    pub amount: i128,
}

/// An event published by the contract.
#[derive(Clone, Debug)]
pub enum Event {
    /// A fixed-rate stream was created.
    StreamCreated {
        sponsor: Account,
        recipient: Account,
        token: Account,
        rate: i128,
        start_ledger: u32,
        cliff_ledger: u32,
        end_ledger: u32,
        total_deposit: i128,
    },
    /// A variable-rate stream was created.
    VariableStreamCreated {
        sponsor: Account,
        recipient: Account,
        token: Account,
        start_ledger: u32,
        cliff_ledger: u32,
        end_ledger: u32,
        total_deposited: i128,
    },
    /// A milestone stream was created.
    MilestoneStreamCreated {
        sponsor: Account,
        recipient: Account,
        token: Account,
        total_deposited: i128,
        end_ledger: u32,
    },
    /// Tokens were claimed from a fixed-rate stream.
    TokensClaimed { recipient: Account, amount: i128, ledger_claimed_through: u32 },
    /// Tokens were claimed from a variable-rate stream.
    VariableTokensClaimed { recipient: Account, amount: i128, ledger_claimed_through: u32 },
    /// Milestone tokens were claimed.
    MilestoneClaimed { recipient: Account, amount: i128 },
    /// A schedule was fully exhausted and removed.
    StreamCompleted { recipient: Account, token: Account },
    /// A sponsor cancelled a stream.
    StreamCancelled { recipient: Account, refunded_amount: i128 },
    /// A sponsor clawed back a stream.
    StreamClawedBack {
        sponsor: Account,
        recipient: Account,
        token: Account,
        amount: i128,
        reason: Vec<u8>,
    },
    /// An expired stream was drained by a permissionless caller.
    StreamDrained {
        caller: Account,
        recipient: Account,
        sponsor: Account,
        token: Account,
        amount: i128,
    },
    /// An expired stream was drained by its sponsor.
    EmergencyDrain { recipient: Account, sponsor: Account, amount: i128 },
    /// A token was added to (`added`) or removed from the allowlist.
    AllowlistUpdated { admin: Account, token: Account, added: bool },
    /// The contract was initialized.
    ContractInitialized { admin: Account, fee_bps: u32, treasury: Account },
    /// The contract code was replaced.
    ContractUpgraded { admin: Account, new_wasm_hash: WasmHash },
    /// A protocol fee was collected at stream creation.
    FeeCollected { sponsor: Account, treasury: Account, fee_amount: i128 },
    /// A stream was paused.
    StreamPaused { recipient: Account, sponsor: Account, paused_at_ledger: u32 },
    /// A paused stream was resumed.
    StreamResumed { recipient: Account, sponsor: Account, new_end_ledger: u32 },
    /// A stream was reassigned to a new recipient.
    RecipientTransferred { old_recipient: Account, new_recipient: Account },
}

/// Something the host must do on the contract's behalf, in order.
#[derive(Clone, Debug)]
pub enum Effect {
    /// Require the address's authorisation; the whole call aborts without it.
    RequireAuth(Account),
    /// Attempt a transfer; if it fails the call ends with `TransferFailed`.
    TryTransfer(Transfer),
    /// Perform a transfer; if it fails the whole call aborts.
    Transfer(Transfer),
    /// Publish an event.
    Emit(Event),
    /// Replace the contract's code.
    UpdateWasm(WasmHash),
}

/// The answer to a contract call: the effects to carry out in order, then the
/// call's result.
///
/// The call fails as a whole (and nothing it stored persists) if an effect
/// fails or if `result` is an error; the state passed to the call is only
/// changed when `result` is `Ok`.
#[derive(Debug)]
pub struct Outcome<T> {
    pub effects: Vec<Effect>,
    pub result: Result<T, VestingError>,
}

/// A transfer from the vault to `to`.
pub open spec fn payout(token: Account, to: Account, amount: i128) -> Transfer {
    Transfer { token, from: Party::Vault, to: Party::Holder(to), amount }
}

/// A transfer from `from` into the vault.
pub open spec fn deposit(token: Account, from: Account, amount: i128) -> Transfer {
    Transfer { token, from: Party::Holder(from), to: Party::Vault, amount }
}

/// Builds a transfer from the vault to `to`.
pub fn make_payout(token: Account, to: Account, amount: i128) -> (t: Transfer)
    ensures
        t == payout(token, to, amount),
{
    Transfer { token, from: Party::Vault, to: Party::Holder(to), amount }
}

/// Builds a transfer from `from` into the vault.
pub fn make_deposit(token: Account, from: Account, amount: i128) -> (t: Transfer)
    ensures
        t == deposit(token, from, amount),
{
    Transfer { token, from: Party::Holder(from), to: Party::Vault, amount }
}

} // verus!
