use vstd::prelude::*;
use crate::addr::Addr;

verus! {

/// A token movement between the bridge and a party.
#[derive(Debug, PartialEq, Eq)]
pub enum Transfer {
    /// `amount` of `token` moves from `from` into the bridge.
    In { token: Addr, from: Addr, amount: i128 },
    /// `amount` of `token` moves from the bridge to `to`.
    Out { token: Addr, to: Addr, amount: i128 },
}

/// The view of a token movement.
pub enum TransferView {
    In { token: Seq<u8>, from: Seq<u8>, amount: i128 },
    Out { token: Seq<u8>, to: Seq<u8>, amount: i128 },
}

impl View for Transfer {
    type V = TransferView;

    open spec fn view(&self) -> TransferView {
        match self {
            Transfer::In { token, from, amount } => TransferView::In {
                token: token@,
                from: from@,
                amount: *amount,
            },
            Transfer::Out { token, to, amount } => TransferView::Out {
                token: token@,
                to: to@,
                amount: *amount,
            },
        }
    }
}

/// An event that the bridge publishes.
#[derive(Debug, PartialEq, Eq)]
pub enum Event {
    /// Topics ("deposit", from); data: amount.
    Deposit { from: Addr, amount: i128 },
    /// Topics ("receipt_issued",); data: receipt id.
    ReceiptIssued { receipt_id: u64 },
    /// Topics ("withdraw", to); data: amount.
    Withdraw { to: Addr, amount: i128 },
    /// Topics ("partial_withdrawal_executed", request id); data: (executed, remaining).
    PartialWithdrawalExecuted { request_id: u64, executed: i128, remaining: i128 },
    /// Topics ("refund", receipt id); data: depositor.
    Refund { receipt_id: u64, depositor: Addr },
    /// Topics ("admin_nominated",); data: nominated admin.
    AdminNominated { new_admin: Addr },
    /// Topics ("admin_accepted",); data: new admin.
    AdminAccepted { admin: Addr },
    /// Topics ("admin_transfer_cancelled",); data: the nominee that was dropped.
    AdminTransferCancelled { pending: Addr },
    /// Topics ("action_queued", action id); data: (action type, delay).
    ActionQueued { action_id: u64, action_type: Vec<u8>, delay_ledgers: u32 },
    /// Topics ("action_executed", action id); data: action type.
    ActionExecuted { action_id: u64, action_type: Vec<u8> },
    /// Topics ("action_cancelled", action id); data: action type.
    ActionCancelled { action_id: u64, action_type: Vec<u8> },
    /// Topics ("admin_claimed",); data: the recovery address.
    AdminClaimed { admin: Addr },
    /// Topics ("token_added",); data: token.
    TokenAdded { token: Addr },
    /// Topics ("token_removed",); data: token.
    TokenRemoved { token: Addr },
}

/// The view of an event.
pub enum EventView {
    Deposit { from: Seq<u8>, amount: i128 },
    ReceiptIssued { receipt_id: u64 },
    Withdraw { to: Seq<u8>, amount: i128 },
    PartialWithdrawalExecuted { request_id: u64, executed: i128, remaining: i128 },
    Refund { receipt_id: u64, depositor: Seq<u8> },
    AdminNominated { new_admin: Seq<u8> },
    AdminAccepted { admin: Seq<u8> },
    AdminTransferCancelled { pending: Seq<u8> },
    ActionQueued { action_id: u64, action_type: Seq<u8>, delay_ledgers: u32 },
    ActionExecuted { action_id: u64, action_type: Seq<u8> },
    ActionCancelled { action_id: u64, action_type: Seq<u8> },
    AdminClaimed { admin: Seq<u8> },
    TokenAdded { token: Seq<u8> },
    TokenRemoved { token: Seq<u8> },
}

impl View for Event {
    type V = EventView;

    open spec fn view(&self) -> EventView {
        match self {
            Event::Deposit { from, amount } => EventView::Deposit { from: from@, amount: *amount },
            Event::ReceiptIssued { receipt_id } => EventView::ReceiptIssued {
                receipt_id: *receipt_id,
            },
            Event::Withdraw { to, amount } => EventView::Withdraw { to: to@, amount: *amount },
            Event::PartialWithdrawalExecuted { request_id, executed, remaining } =>
                EventView::PartialWithdrawalExecuted {
                request_id: *request_id,
                executed: *executed,
                remaining: *remaining,
            },
            Event::Refund { receipt_id, depositor } => EventView::Refund {
                receipt_id: *receipt_id,
                depositor: depositor@,
            },
            Event::AdminNominated { new_admin } => EventView::AdminNominated {
                new_admin: new_admin@,
            },
            Event::AdminAccepted { admin } => EventView::AdminAccepted { admin: admin@ },
            Event::AdminTransferCancelled { pending } => EventView::AdminTransferCancelled {
                pending: pending@,
            },
            Event::ActionQueued { action_id, action_type, delay_ledgers } =>
                EventView::ActionQueued {
                action_id: *action_id,
                action_type: action_type@,
                delay_ledgers: *delay_ledgers,
            },
            Event::ActionExecuted { action_id, action_type } => EventView::ActionExecuted {
                action_id: *action_id,
                action_type: action_type@,
            },
            Event::ActionCancelled { action_id, action_type } => EventView::ActionCancelled {
                action_id: *action_id,
                action_type: action_type@,
            },
            Event::AdminClaimed { admin } => EventView::AdminClaimed { admin: admin@ },
            Event::TokenAdded { token } => EventView::TokenAdded { token: token@ },
            Event::TokenRemoved { token } => EventView::TokenRemoved { token: token@ },
        }
    }
}

/// One invocation of a bridge operation: the ledger it runs at, and what
/// the operation asks of its host. The host must obtain the authorisation
/// of every address in `auths` (a refusal aborts the whole invocation);
/// when the operation succeeds it then carries out `transfers` and
/// publishes `events`, in order, and keeps the new state.
pub struct Invocation {
    pub sequence: u32,
    pub auths: Vec<Addr>,
    pub transfers: Vec<Transfer>,
    pub events: Vec<Event>,
}

/// The view of an invocation.
pub struct InvocationView {
    pub sequence: u32,
    pub auths: Seq<Seq<u8>>,
    pub transfers: Seq<TransferView>,
    pub events: Seq<EventView>,
}

impl View for Invocation {
    type V = InvocationView;

    open spec fn view(&self) -> InvocationView {
        InvocationView {
            sequence: self.sequence,
            auths: self.auths@.map_values(|a: Addr| a@),
            transfers: self.transfers@.map_values(|t: Transfer| t@),
            events: self.events@.map_values(|e: Event| e@),
        }
    }
}

impl Invocation {
    /// A fresh invocation at ledger `sequence` that has asked nothing yet.
    pub fn new(sequence: u32) -> (r: Invocation)
        ensures
            r@.sequence == sequence,
            r@.auths == Seq::<Seq<u8>>::empty(),
            r@.transfers == Seq::<TransferView>::empty(),
            r@.events == Seq::<EventView>::empty(),
    {
        let r = Invocation { sequence, auths: Vec::new(), transfers: Vec::new(), events: Vec::new() };
        assert(r@.auths =~= Seq::<Seq<u8>>::empty());
        assert(r@.transfers =~= Seq::<TransferView>::empty());
        assert(r@.events =~= Seq::<EventView>::empty());
        r
    }

    /// Records that `who` must authorise this invocation.
    pub fn require_auth(&mut self, who: &Addr)
        ensures
            final(self)@ == (InvocationView { auths: old(self)@.auths.push(who@), ..old(self)@ }),
    {
        let ghost pre = self@;
        self.auths.push(who.copy());
        assert(self@.auths =~= pre.auths.push(who@));
        assert(self@.transfers =~= pre.transfers);
        assert(self@.events =~= pre.events);
    }

    /// Records a token movement.
    pub fn transfer(&mut self, t: Transfer)
        ensures
            final(self)@ == (InvocationView {
                transfers: old(self)@.transfers.push(t@),
                ..old(self)@
            }),
    {
        let ghost pre = self@;
        self.transfers.push(t);
        assert(self@.auths =~= pre.auths);
        assert(self@.transfers =~= pre.transfers.push(t@));
        assert(self@.events =~= pre.events);
    }

    /// Records a published event.
    pub fn publish(&mut self, e: Event)
        ensures
            final(self)@ == (InvocationView { events: old(self)@.events.push(e@), ..old(self)@ }),
    {
        let ghost pre = self@;
        self.events.push(e);
        assert(self@.auths =~= pre.auths);
        assert(self@.transfers =~= pre.transfers);
        assert(self@.events =~= pre.events.push(e@));
    }
}

} // verus!
