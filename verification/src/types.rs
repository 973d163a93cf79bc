use vstd::prelude::*;
use crate::addr::{Addr, copy_bytes};

verus! {

/// Minimum remaining ledgers for instance storage (~30 days).
pub const MIN_TTL: u32 = 518_400;

/// Maximum ledgers for instance storage TTL extension (~31 days).
pub const MAX_TTL: u32 = 535_680;

/// Maximum allowed length for a deposit reference (bytes).
pub const MAX_REFERENCE_LEN: u32 = 64;

/// Approximate number of ledgers in a 24-hour window (5-second close time):
/// the span over which the daily withdrawal cap applies.
pub const WINDOW_LEDGERS: u32 = 17_280;

/// Minimum timelock delay for admin actions (48 hours in ledgers).
pub const MIN_TIMELOCK_DELAY: u32 = 34_560;

/// Default inactivity threshold for emergency recovery (3 months in ledgers).
pub const DEFAULT_INACTIVITY_THRESHOLD: u32 = 1_555_200;

/// All error codes returned by the bridge's operations.
#[derive(Copy, Clone, Debug, PartialEq, Eq, Structural, PartialOrd, Ord)]
pub enum Error {
    /// The bridge has not been initialised yet (`init` was never called).
    NotInitialized,
    /// `init` has already been called; the bridge cannot be initialised twice.
    AlreadyInitialized,
    /// The caller does not have the required authorisation (e.g. not the admin).
    Unauthorized,
    /// The supplied amount is zero or negative, which is not permitted.
    ZeroAmount,
    /// The requested amount exceeds the per-deposit limit configured for the token.
    ExceedsLimit,
    /// The bridge does not hold enough tokens to satisfy the withdrawal.
    InsufficientFunds,
    /// The withdrawal request has not yet reached its unlock ledger.
    WithdrawalLocked,
    /// No withdrawal request exists with the supplied ID.
    RequestNotFound,
    /// The supplied token address is not in the whitelist.
    TokenNotWhitelisted,
    /// The deposit reference exceeds the maximum allowed byte length.
    ReferenceTooLong,
    /// The sender attempted a deposit before their cooldown period has elapsed.
    CooldownActive,
    /// `accept_admin` or `cancel_admin_transfer` was called when no pending admin exists.
    NoPendingAdmin,
    /// No deposit receipt exists with the supplied ID.
    ReceiptNotFound,
    /// The deposit receipt has already been refunded.
    AlreadyRefunded,
    /// No admin action is queued under the supplied ID.
    ActionNotQueued,
    /// The admin action's timelock has not elapsed, or the delay is too short.
    ActionNotReady,
    /// The admin has not been inactive for long enough.
    InactivityThresholdNotReached,
    /// No emergency recovery address is configured.
    NoEmergencyRecoveryAddress,
}

/// Per-token configuration: the per-deposit limit and the running total.
#[derive(Copy, Clone, Debug, PartialEq, Eq, Structural)]
pub struct TokenConfig {
    pub limit: i128,
    pub total_deposited: i128,
}

/// Whether a receipt is still active or has been refunded.
#[derive(Copy, Clone, Debug, PartialEq, Eq, Structural)]
pub enum ReceiptStatus {
    Active,
    Refunded,
}

/// A withdrawal request that matures at `unlock_ledger`.
#[derive(Debug, PartialEq, Eq)]
pub struct WithdrawRequest {
    pub to: Addr,
    pub token: Addr,
    pub amount: i128,
    pub unlock_ledger: u32,
}

/// The view of a withdrawal request.
pub struct WithdrawRequestView {
    pub to: Seq<u8>,
    pub token: Seq<u8>,
    pub amount: i128,
    pub unlock_ledger: u32,
}

impl View for WithdrawRequest {
    type V = WithdrawRequestView;

    open spec fn view(&self) -> WithdrawRequestView {
        WithdrawRequestView {
            to: self.to@,
            token: self.token@,
            amount: self.amount,
            unlock_ledger: self.unlock_ledger,
        }
    }
}

impl WithdrawRequest {
    /// A copy of this request.
    pub fn copy(&self) -> (r: WithdrawRequest)
        ensures
            r@ == self@,
    {
        WithdrawRequest {
            to: self.to.copy(),
            token: self.token.copy(),
            amount: self.amount,
            unlock_ledger: self.unlock_ledger,
        }
    }
}

/// A deposit receipt: who deposited how much of which token, when.
#[derive(Debug, PartialEq, Eq)]
pub struct Receipt {
    pub id: u64,
    pub depositor: Addr,
    pub token: Addr,
    pub amount: i128,
    pub ledger: u32,
    pub reference: Vec<u8>,
    pub refunded: bool,
}

/// The view of a deposit receipt.
pub struct ReceiptView {
    pub id: u64,
    pub depositor: Seq<u8>,
    pub token: Seq<u8>,
    pub amount: i128,
    pub ledger: u32,
    pub reference: Seq<u8>,
    pub refunded: bool,
}

impl View for Receipt {
    type V = ReceiptView;

    open spec fn view(&self) -> ReceiptView {
        ReceiptView {
            id: self.id,
            depositor: self.depositor@,
            token: self.token@,
            amount: self.amount,
            ledger: self.ledger,
            reference: self.reference@,
            refunded: self.refunded,
        }
    }
}

impl Receipt {
    /// A copy of this receipt.
    pub fn copy(&self) -> (r: Receipt)
        ensures
            r@ == self@,
    {
        Receipt {
            id: self.id,
            depositor: self.depositor.copy(),
            token: self.token.copy(),
            amount: self.amount,
            ledger: self.ledger,
            reference: copy_bytes(&self.reference),
            refunded: self.refunded,
        }
    }
}

/// An admin action waiting for its timelock to elapse.
#[derive(Debug, PartialEq, Eq)]
pub struct QueuedAdminAction {
    pub action_type: Vec<u8>,
    pub payload: Vec<u8>,
    pub target_ledger: u32,
    pub queued_ledger: u32,
}

/// The view of a queued admin action.
pub struct QueuedAdminActionView {
    pub action_type: Seq<u8>,
    pub payload: Seq<u8>,
    pub target_ledger: u32,
    pub queued_ledger: u32,
}

impl View for QueuedAdminAction {
    type V = QueuedAdminActionView;

    open spec fn view(&self) -> QueuedAdminActionView {
        QueuedAdminActionView {
            action_type: self.action_type@,
            payload: self.payload@,
            target_ledger: self.target_ledger,
            queued_ledger: self.queued_ledger,
        }
    }
}

impl QueuedAdminAction {
    /// A copy of this action.
    pub fn copy(&self) -> (r: QueuedAdminAction)
        ensures
            r@ == self@,
    {
        QueuedAdminAction {
            action_type: copy_bytes(&self.action_type),
            payload: copy_bytes(&self.payload),
            target_ledger: self.target_ledger,
            queued_ledger: self.queued_ledger,
        }
    }
}

/// One entry of a batch withdrawal.
#[derive(Debug, PartialEq, Eq)]
pub struct WithdrawEntry {
    pub to: Addr,
    pub amount: i128,
}

} // verus!
