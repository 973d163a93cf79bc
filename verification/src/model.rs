use vstd::prelude::*;
use crate::effects::{EventView, InvocationView, TransferView};
use crate::types::{
    DEFAULT_INACTIVITY_THRESHOLD, Error, MAX_REFERENCE_LEN, MIN_TIMELOCK_DELAY, QueuedAdminActionView,
    ReceiptView, TokenConfig, WINDOW_LEDGERS, WithdrawRequestView,
};

verus! {

/// The abstract state of the bridge: everything its operations read or write.
#[verifier::ext_equal]
pub struct BridgeView {
    /// The active admin, once initialised.
    pub admin: Option<Seq<u8>>,
    /// A nominated admin that has not yet accepted.
    pub pending_admin: Option<Seq<u8>>,
    /// The default token registered by `init`.
    pub token: Option<Seq<u8>>,
    /// The whitelist: per-token configuration.
    pub registry: Map<Seq<u8>, TokenConfig>,
    /// Cumulative amount deposited by each address.
    pub user_deposited: Map<Seq<u8>, i128>,
    /// Mandatory delay (in ledgers) for withdrawal requests.
    pub lock_period: u32,
    /// Withdrawal requests by id; `None` once executed or cancelled.
    pub requests: Seq<Option<WithdrawRequestView>>,
    /// Deposit receipts by id.
    pub receipts: Seq<ReceiptView>,
    /// The daily withdrawal cap, if set; a cap of 0 disables it.
    pub daily_limit: Option<i128>,
    /// Recent payouts of `withdraw` and `execute_withdrawal`, as
    /// (ledger, amount), oldest first.
    pub withdrawals: Seq<(u32, i128)>,
    /// Minimum ledger gap between two deposits from one address.
    pub cooldown: u32,
    /// Ledger of the last deposit of each address, kept while a cooldown is set.
    pub last_deposit: Map<Seq<u8>, u32>,
    /// Queued admin actions by id; `None` once executed or cancelled.
    pub actions: Seq<Option<QueuedAdminActionView>>,
    /// The emergency recovery address, if set.
    pub recovery: Option<Seq<u8>>,
    /// Ledger of the last admin action that counts for inactivity.
    pub last_admin_action: u32,
    /// Ledgers of admin inactivity after which recovery may claim the role.
    pub inactivity_threshold: u32,
}

/// What a successful operation returns, leaves behind and asks the host to do.
pub struct Commit<T> {
    pub value: T,
    pub state: BridgeView,
    pub transfers: Seq<TransferView>,
    pub events: Seq<EventView>,
}

/// The meaning of one operation on one state: the authorisations it
/// demands (in order, also on failure), and either its error or its commit.
pub struct Step<T> {
    pub auths: Seq<Seq<u8>>,
    pub outcome: Result<Commit<T>, Error>,
}

/// A step that fails with `e` after demanding `auths`.
pub open spec fn refuse<T>(auths: Seq<Seq<u8>>, e: Error) -> Step<T> {
    Step { auths, outcome: Err(e) }
}

/// A step that succeeds.
pub open spec fn done<T>(
    auths: Seq<Seq<u8>>,
    value: T,
    state: BridgeView,
    transfers: Seq<TransferView>,
    events: Seq<EventView>,
) -> Step<T> {
    Step { auths, outcome: Ok(Commit { value, state, transfers, events }) }
}

impl<T> Step<T> {
    /// Whether the step succeeds.
    pub open spec fn is_ok(self) -> bool {
        self.outcome is Ok
    }

    /// The state after the step (unchanged on failure).
    pub open spec fn post(self, pre: BridgeView) -> BridgeView {
        match self.outcome {
            Ok(c) => c.state,
            Err(_) => pre,
        }
    }

    /// An executable run of the step: it returned `r`, turned `pre` into
    /// `post`, and recorded its demands on the invocation.
    pub open spec fn holds(
        self,
        r: Result<T, Error>,
        pre: BridgeView,
        post: BridgeView,
        before: InvocationView,
        after: InvocationView,
    ) -> bool {
        &&& after.sequence == before.sequence
        &&& after.auths == before.auths + self.auths
        &&& match self.outcome {
            Ok(c) => {
                &&& r == Ok::<T, Error>(c.value)
                &&& post == c.state
                &&& after.transfers == before.transfers + c.transfers
                &&& after.events == before.events + c.events
            },
            Err(e) => {
                &&& r == Err::<T, Error>(e)
                &&& post == pre
                &&& after.transfers == before.transfers
                &&& after.events == before.events
            },
        }
    }
}

/// Whether a payout made at ledger `made` still counts at ledger `at`:
/// it lies within the last `WINDOW_LEDGERS` ledgers.
pub open spec fn in_window(made: u32, at: u32) -> bool {
    at < made + WINDOW_LEDGERS
}

/// The total of the payouts in `log` that still count at ledger `at`.
pub open spec fn window_total(log: Seq<(u32, i128)>, at: u32) -> int
    decreases log.len(),
{
    if log.len() == 0 {
        0
    } else {
        window_total(log.drop_last(), at) + if in_window(log.last().0, at) {
            log.last().1 as int
        } else {
            0
        }
    }
}

/// The payouts in `log` that still count at ledger `at`, in order.
pub open spec fn recent(log: Seq<(u32, i128)>, at: u32) -> Seq<(u32, i128)>
    decreases log.len(),
{
    if log.len() == 0 {
        Seq::empty()
    } else if in_window(log.last().0, at) {
        recent(log.drop_last(), at).push(log.last())
    } else {
        recent(log.drop_last(), at)
    }
}

/// Counting only positive payouts, a prefix of the log never counts more
/// than the whole log, and no total is negative.
pub proof fn lemma_window_total_prefix(log: Seq<(u32, i128)>, at: u32, k: int)
    requires
        0 <= k <= log.len(),
        forall|i: int| 0 <= i < log.len() ==> #[trigger] log[i].1 > 0,
    ensures
        0 <= window_total(log.take(k), at) <= window_total(log, at),
    decreases log.len(),
{
    if log.len() > 0 {
        let d = log.drop_last();
        if k < log.len() {
            assert(d.take(k) =~= log.take(k));
            lemma_window_total_prefix(d, at, k);
        } else {
            assert(log.take(k) =~= log);
            lemma_window_total_prefix(d, at, d.len() as int);
            assert(d.take(d.len() as int) =~= d);
        }
    } else {
        assert(log.take(k) =~= log);
    }
}

/// The payouts that still count are a selection of the log: they are as
/// positive as the log's, and they count for as much at `at`.
pub proof fn lemma_recent(log: Seq<(u32, i128)>, at: u32)
    requires
        forall|i: int| 0 <= i < log.len() ==> #[trigger] log[i].1 > 0,
    ensures
        forall|i: int| 0 <= i < recent(log, at).len() ==> #[trigger] recent(log, at)[i].1 > 0,
        window_total(recent(log, at), at) == window_total(log, at),
    decreases log.len(),
{
    if log.len() > 0 {
        let d = log.drop_last();
        lemma_recent(d, at);
        let r = recent(d, at);
        if in_window(log.last().0, at) {
            assert(r.push(log.last()).drop_last() =~= r);
            assert forall|i: int| 0 <= i < r.push(log.last()).len() implies #[trigger] r.push(
                log.last(),
            )[i].1 > 0 by {
                if i < r.len() {
                    assert(r.push(log.last())[i] == r[i]);
                }
            }
        }
    }
}

impl BridgeView {
    /// The state of a freshly deployed bridge.
    pub open spec fn empty() -> BridgeView {
        BridgeView {
            admin: None,
            pending_admin: None,
            token: None,
            registry: Map::empty(),
            user_deposited: Map::empty(),
            lock_period: 0,
            requests: Seq::empty(),
            receipts: Seq::empty(),
            daily_limit: None,
            withdrawals: Seq::empty(),
            cooldown: 0,
            last_deposit: Map::empty(),
            actions: Seq::empty(),
            recovery: None,
            last_admin_action: 0,
            inactivity_threshold: DEFAULT_INACTIVITY_THRESHOLD,
        }
    }

    /// The invariant that every reachable state satisfies.
    pub open spec fn valid(self) -> bool {
        &&& forall|i: int| 0 <= i < self.receipts.len() ==> #[trigger] self.receipts[i].id == i
        &&& self.admin is None ==> self.actions.len() == 0
        &&& self.admin is Some ==> self.token is Some
        &&& self.pending_admin is Some ==> self.admin is Some
        &&& self.recovery is Some ==> self.admin is Some
        &&& forall|i: int| 0 <= i < self.withdrawals.len() ==> #[trigger] self.withdrawals[i].1 > 0
        &&& forall|i: int|
            0 <= i < self.requests.len() && (#[trigger] self.requests[i]) is Some
                ==> self.requests[i]->Some_0.amount > 0
        &&& forall|t: Seq<u8>| #[trigger]
            self.registry.contains_key(t) ==> self.registry[t].limit > 0
                && self.registry[t].total_deposited >= 0
        &&& forall|u: Seq<u8>| #[trigger]
            self.user_deposited.contains_key(u) ==> self.user_deposited[u] >= 0
    }

    /// The authorisations demanded by an admin-only operation before its
    /// own checks: the admin's, once there is one.
    pub open spec fn admin_auths(self) -> Seq<Seq<u8>> {
        match self.admin {
            Some(a) => seq![a],
            None => Seq::empty(),
        }
    }

    /// Cumulative deposits of `user` (0 if none).
    pub open spec fn user_total(self, user: Seq<u8>) -> int {
        if self.user_deposited.contains_key(user) {
            self.user_deposited[user] as int
        } else {
            0
        }
    }

    /// Whether withdrawal request `id` is pending.
    pub open spec fn has_request(self, id: u64) -> bool {
        id < self.requests.len() && self.requests[id as int] is Some
    }

    /// Whether admin action `id` is queued.
    pub open spec fn has_action(self, id: u64) -> bool {
        id < self.actions.len() && self.actions[id as int] is Some
    }

    /// Whether `from` is still inside its deposit cooldown at ledger `at`.
    pub open spec fn cooldown_blocks(self, at: u32, from: Seq<u8>) -> bool {
        &&& self.cooldown > 0
        &&& self.last_deposit.contains_key(from)
        &&& at - self.last_deposit[from] < self.cooldown
    }

    // ── Operations ────────────────────────────────────────────────────

    /// `init`: set the admin and register the first whitelisted token.
    pub open spec fn init(self, at: u32, admin: Seq<u8>, token: Seq<u8>, limit: i128) -> Step<()> {
        if self.admin is Some {
            refuse(seq![], Error::AlreadyInitialized)
        } else if limit <= 0 {
            refuse(seq![], Error::ZeroAmount)
        } else {
            done(
                seq![],
                (),
                BridgeView {
                    admin: Some(admin),
                    token: Some(token),
                    registry: self.registry.insert(token, TokenConfig { limit, total_deposited: 0 }),
                    last_admin_action: at,
                    inactivity_threshold: DEFAULT_INACTIVITY_THRESHOLD,
                    ..self
                },
                seq![],
                seq![],
            )
        }
    }

    /// `deposit`: lock `amount` of a whitelisted token and issue a receipt.
    pub open spec fn deposit(
        self,
        at: u32,
        from: Seq<u8>,
        amount: i128,
        token: Seq<u8>,
        reference: Seq<u8>,
    ) -> Step<u64> {
        let auths = seq![from];
        if self.cooldown_blocks(at, from) {
            refuse(auths, Error::CooldownActive)
        } else if reference.len() > MAX_REFERENCE_LEN {
            refuse(auths, Error::ReferenceTooLong)
        } else if amount <= 0 {
            refuse(auths, Error::ZeroAmount)
        } else if !self.registry.contains_key(token) {
            refuse(auths, Error::TokenNotWhitelisted)
        } else if amount > self.registry[token].limit {
            refuse(auths, Error::ExceedsLimit)
        } else {
            let id = self.receipts.len() as u64;
            let config = self.registry[token];
            let receipt = ReceiptView {
                id,
                depositor: from,
                token,
                amount,
                ledger: at,
                reference,
                refunded: false,
            };
            done(
                auths,
                id,
                BridgeView {
                    receipts: self.receipts.push(receipt),
                    registry: self.registry.insert(
                        token,
                        TokenConfig {
                            limit: config.limit,
                            total_deposited: (config.total_deposited + amount) as i128,
                        },
                    ),
                    user_deposited: self.user_deposited.insert(
                        from,
                        (self.user_total(from) + amount) as i128,
                    ),
                    last_deposit: if self.cooldown > 0 {
                        self.last_deposit.insert(from, at)
                    } else {
                        self.last_deposit
                    },
                    ..self
                },
                seq![TransferView::In { token, from, amount }],
                seq![EventView::Deposit { from, amount }, EventView::ReceiptIssued { receipt_id: id }],
            )
        }
    }

    /// The inputs on which `deposit` aborts on an arithmetic overflow.
    pub open spec fn deposit_overflows(
        self,
        at: u32,
        from: Seq<u8>,
        amount: i128,
        token: Seq<u8>,
        reference: Seq<u8>,
    ) -> bool {
        ||| self.cooldown > 0 && self.last_deposit.contains_key(from) && self.last_deposit[from] > at
        ||| self.deposit(at, from, amount, token, reference).is_ok() && {
            ||| self.receipts.len() >= u64::MAX
            ||| self.registry[token].total_deposited + amount > i128::MAX
            ||| self.user_total(from) + amount > i128::MAX
        }
    }

    /// Whether paying out `amount` at ledger `at` would take the payouts of
    /// the last `WINDOW_LEDGERS` ledgers above a positive daily cap.
    pub open spec fn cap_blocks(self, at: u32, amount: i128) -> bool {
        match self.daily_limit {
            Some(cap) => cap > 0 && window_total(self.withdrawals, at) + amount > cap,
            None => false,
        }
    }

    /// The payout log after paying out `amount` at ledger `at`: payouts
    /// that no longer count are dropped, and the new one is appended.
    pub open spec fn logged(self, at: u32, amount: i128) -> Seq<(u32, i128)> {
        recent(self.withdrawals, at).push((at, amount))
    }

    /// `withdraw`: pay `amount` of `token` out to `to` at ledger `at`, given
    /// the bridge's current `balance` of that token. Needs both `to` and the
    /// admin, and is held to the daily cap.
    pub open spec fn withdraw(
        self,
        at: u32,
        to: Seq<u8>,
        amount: i128,
        token: Seq<u8>,
        balance: i128,
    ) -> Step<()> {
        if amount <= 0 {
            refuse(seq![to], Error::ZeroAmount)
        } else {
            match self.admin {
                None => refuse(seq![to], Error::NotInitialized),
                Some(admin) => if amount > balance {
                    refuse(seq![to, admin], Error::InsufficientFunds)
                } else if self.cap_blocks(at, amount) {
                    refuse(seq![to, admin], Error::ExceedsLimit)
                } else {
                    done(
                        seq![to, admin],
                        (),
                        BridgeView { withdrawals: self.logged(at, amount), ..self },
                        seq![TransferView::Out { token, to, amount }],
                        seq![EventView::Withdraw { to, amount }],
                    )
                },
            }
        }
    }

    /// `request_withdrawal`: queue a payout that matures after the lock period.
    pub open spec fn request_withdrawal(self, at: u32, to: Seq<u8>, amount: i128, token: Seq<u8>) -> Step<
        u64,
    > {
        match self.admin {
            None => refuse(seq![], Error::NotInitialized),
            Some(admin) => if amount <= 0 {
                refuse(seq![admin], Error::ZeroAmount)
            } else {
                let request = WithdrawRequestView {
                    to,
                    token,
                    amount,
                    unlock_ledger: (at + self.lock_period) as u32,
                };
                done(
                    seq![admin],
                    self.requests.len() as u64,
                    BridgeView { requests: self.requests.push(Some(request)), ..self },
                    seq![],
                    seq![],
                )
            },
        }
    }

    /// The inputs on which `request_withdrawal` aborts on an overflow.
    pub open spec fn request_withdrawal_overflows(self, at: u32, amount: i128) -> bool {
        &&& self.admin is Some
        &&& amount > 0
        &&& (at + self.lock_period > u32::MAX || self.requests.len() >= u64::MAX)
    }

    /// `execute_withdrawal`: pay out a matured request, in full or in part,
    /// given the bridge's current `balance` of the request's token. The
    /// payout is held to the daily cap.
    pub open spec fn execute_withdrawal(
        self,
        at: u32,
        request_id: u64,
        partial_amount: Option<i128>,
        balance: i128,
    ) -> Step<()> {
        if !self.has_request(request_id) {
            refuse(seq![], Error::RequestNotFound)
        } else {
            let request = self.requests[request_id as int]->Some_0;
            if at < request.unlock_ledger {
                refuse(seq![], Error::WithdrawalLocked)
            } else {
                match partial_amount {
                    Some(part) => if part <= 0 || part > request.amount {
                        refuse(seq![], Error::ZeroAmount)
                    } else if part > balance {
                        refuse(seq![], Error::InsufficientFunds)
                    } else if self.cap_blocks(at, part) {
                        refuse(seq![], Error::ExceedsLimit)
                    } else {
                        let remaining = (request.amount - part) as i128;
                        let slot = if remaining <= 0 {
                            None
                        } else {
                            Some(WithdrawRequestView { amount: remaining, ..request })
                        };
                        done(
                            seq![],
                            (),
                            BridgeView {
                                requests: self.requests.update(request_id as int, slot),
                                withdrawals: self.logged(at, part),
                                ..self
                            },
                            seq![
                                TransferView::Out { token: request.token, to: request.to, amount: part },
                            ],
                            seq![
                                EventView::PartialWithdrawalExecuted {
                                    request_id,
                                    executed: part,
                                    remaining,
                                },
                            ],
                        )
                    },
                    None => if request.amount > balance {
                        refuse(seq![], Error::InsufficientFunds)
                    } else if self.cap_blocks(at, request.amount) {
                        refuse(seq![], Error::ExceedsLimit)
                    } else {
                        done(
                            seq![],
                            (),
                            BridgeView {
                                requests: self.requests.update(request_id as int, None),
                                withdrawals: self.logged(at, request.amount),
                                ..self
                            },
                            seq![
                                TransferView::Out {
                                    token: request.token,
                                    to: request.to,
                                    amount: request.amount,
                                },
                            ],
                            seq![],
                        )
                    },
                }
            }
        }
    }

    /// `cancel_withdrawal`: drop a pending request. Admin only.
    pub open spec fn cancel_withdrawal(self, request_id: u64) -> Step<()> {
        match self.admin {
            None => refuse(seq![], Error::NotInitialized),
            Some(admin) => if !self.has_request(request_id) {
                refuse(seq![admin], Error::RequestNotFound)
            } else {
                done(
                    seq![admin],
                    (),
                    BridgeView { requests: self.requests.update(request_id as int, None), ..self },
                    seq![],
                    seq![],
                )
            },
        }
    }

    /// `refund_deposit`: return a receipt's amount, in the token that was
    /// deposited, to its depositor and mark it refunded. Admin only.
    pub open spec fn refund_deposit(self, at: u32, receipt_id: u64) -> Step<()> {
        match self.admin {
            None => refuse(seq![], Error::NotInitialized),
            Some(admin) => if receipt_id >= self.receipts.len() {
                refuse(seq![admin], Error::ReceiptNotFound)
            } else {
                let receipt = self.receipts[receipt_id as int];
                if receipt.refunded {
                    refuse(seq![admin], Error::AlreadyRefunded)
                } else {
                    done(
                        seq![admin],
                        (),
                        BridgeView {
                            receipts: self.receipts.update(
                                receipt_id as int,
                                ReceiptView { refunded: true, ..receipt },
                            ),
                            last_admin_action: at,
                            ..self
                        },
                        seq![
                            TransferView::Out {
                                token: receipt.token,
                                to: receipt.depositor,
                                amount: receipt.amount,
                            },
                        ],
                        seq![EventView::Refund { receipt_id, depositor: receipt.depositor }],
                    )
                }
            },
        }
    }

    /// `set_daily_limit`: set the most that `withdraw` and `execute_withdrawal`
    /// may pay out within `WINDOW_LEDGERS` ledgers; 0 disables the cap. Admin only.
    pub open spec fn set_daily_limit(self, limit: i128) -> Step<()> {
        match self.admin {
            None => refuse(seq![], Error::NotInitialized),
            Some(admin) => if limit < 0 {
                refuse(seq![admin], Error::ZeroAmount)
            } else {
                done(seq![admin], (), BridgeView { daily_limit: Some(limit), ..self }, seq![], seq![])
            },
        }
    }

    /// `set_lock_period`: set the withdrawal delay. Admin only.
    pub open spec fn set_lock_period(self, ledgers: u32) -> Step<()> {
        match self.admin {
            None => refuse(seq![], Error::NotInitialized),
            Some(admin) => done(
                seq![admin],
                (),
                BridgeView { lock_period: ledgers, ..self },
                seq![],
                seq![],
            ),
        }
    }

    /// `set_limit`: change a whitelisted token's per-deposit limit. Admin only.
    pub open spec fn set_limit(self, token: Seq<u8>, new_limit: i128) -> Step<()> {
        if new_limit <= 0 {
            refuse(seq![], Error::ZeroAmount)
        } else {
            match self.admin {
                None => refuse(seq![], Error::NotInitialized),
                Some(admin) => if !self.registry.contains_key(token) {
                    refuse(seq![admin], Error::TokenNotWhitelisted)
                } else {
                    done(
                        seq![admin],
                        (),
                        BridgeView {
                            registry: self.registry.insert(
                                token,
                                TokenConfig { limit: new_limit, ..self.registry[token] },
                            ),
                            ..self
                        },
                        seq![],
                        seq![],
                    )
                },
            }
        }
    }

    /// `transfer_admin`: nominate a new admin; the current one stays active.
    pub open spec fn transfer_admin(self, new_admin: Seq<u8>) -> Step<()> {
        match self.admin {
            None => refuse(seq![], Error::NotInitialized),
            Some(admin) => done(
                seq![admin],
                (),
                BridgeView { pending_admin: Some(new_admin), ..self },
                seq![],
                seq![EventView::AdminNominated { new_admin }],
            ),
        }
    }

    /// `accept_admin`: the nominee takes over the admin role.
    pub open spec fn accept_admin(self, claimant: Seq<u8>) -> Step<()> {
        match self.pending_admin {
            None => refuse(seq![], Error::NoPendingAdmin),
            Some(pending) => if claimant != pending {
                refuse(seq![], Error::Unauthorized)
            } else {
                done(
                    seq![claimant],
                    (),
                    BridgeView { admin: Some(claimant), pending_admin: None, ..self },
                    seq![],
                    seq![EventView::AdminAccepted { admin: claimant }],
                )
            },
        }
    }

    /// `cancel_admin_transfer`: withdraw a pending nomination. Admin only.
    pub open spec fn cancel_admin_transfer(self) -> Step<()> {
        match self.admin {
            None => refuse(seq![], Error::NotInitialized),
            Some(admin) => match self.pending_admin {
                None => refuse(seq![admin], Error::NoPendingAdmin),
                Some(pending) => done(
                    seq![admin],
                    (),
                    BridgeView { pending_admin: None, ..self },
                    seq![],
                    seq![EventView::AdminTransferCancelled { pending }],
                ),
            },
        }
    }

    /// `queue_admin_action`: queue an action behind a timelock of at least
    /// `MIN_TIMELOCK_DELAY` ledgers. Admin only.
    pub open spec fn queue_admin_action(
        self,
        at: u32,
        action_type: Seq<u8>,
        payload: Seq<u8>,
        delay_ledgers: u32,
    ) -> Step<u64> {
        match self.admin {
            None => refuse(seq![], Error::NotInitialized),
            Some(admin) => if delay_ledgers < MIN_TIMELOCK_DELAY {
                refuse(seq![admin], Error::ActionNotReady)
            } else {
                let id = self.actions.len() as u64;
                let action = QueuedAdminActionView {
                    action_type,
                    payload,
                    target_ledger: (at + delay_ledgers) as u32,
                    queued_ledger: at,
                };
                done(
                    seq![admin],
                    id,
                    BridgeView { actions: self.actions.push(Some(action)), ..self },
                    seq![],
                    seq![EventView::ActionQueued { action_id: id, action_type, delay_ledgers }],
                )
            },
        }
    }

    /// The inputs on which `queue_admin_action` aborts on an overflow.
    pub open spec fn queue_admin_action_overflows(self, at: u32, delay_ledgers: u32) -> bool {
        &&& self.admin is Some
        &&& delay_ledgers >= MIN_TIMELOCK_DELAY
        &&& (at + delay_ledgers > u32::MAX || self.actions.len() >= u64::MAX)
    }

    /// `execute_admin_action`: run a queued action once its timelock has passed.
    pub open spec fn execute_admin_action(self, at: u32, action_id: u64) -> Step<()> {
        match self.admin {
            None => refuse(seq![], Error::NotInitialized),
            Some(admin) => if !self.has_action(action_id) {
                refuse(seq![admin], Error::ActionNotQueued)
            } else {
                let action = self.actions[action_id as int]->Some_0;
                if at <= action.target_ledger {
                    refuse(seq![admin], Error::ActionNotReady)
                } else {
                    done(
                        seq![admin],
                        (),
                        BridgeView {
                            actions: self.actions.update(action_id as int, None),
                            last_admin_action: at,
                            ..self
                        },
                        seq![],
                        seq![
                            EventView::ActionExecuted { action_id, action_type: action.action_type },
                        ],
                    )
                }
            },
        }
    }

    /// `cancel_admin_action`: drop a queued action. Admin only.
    pub open spec fn cancel_admin_action(self, action_id: u64) -> Step<()> {
        match self.admin {
            None => refuse(seq![], Error::NotInitialized),
            Some(admin) => if !self.has_action(action_id) {
                refuse(seq![admin], Error::ActionNotQueued)
            } else {
                let action = self.actions[action_id as int]->Some_0;
                done(
                    seq![admin],
                    (),
                    BridgeView { actions: self.actions.update(action_id as int, None), ..self },
                    seq![],
                    seq![EventView::ActionCancelled { action_id, action_type: action.action_type }],
                )
            },
        }
    }

    /// `set_emergency_recovery_address`. Admin only; counts as admin activity.
    pub open spec fn set_emergency_recovery_address(self, at: u32, address: Seq<u8>) -> Step<()> {
        match self.admin {
            None => refuse(seq![], Error::NotInitialized),
            Some(admin) => done(
                seq![admin],
                (),
                BridgeView { recovery: Some(address), last_admin_action: at, ..self },
                seq![],
                seq![],
            ),
        }
    }

    /// `set_inactivity_threshold`. Admin only; counts as admin activity.
    pub open spec fn set_inactivity_threshold(self, at: u32, threshold_ledgers: u32) -> Step<()> {
        match self.admin {
            None => refuse(seq![], Error::NotInitialized),
            Some(admin) => done(
                seq![admin],
                (),
                BridgeView {
                    inactivity_threshold: threshold_ledgers,
                    last_admin_action: at,
                    ..self
                },
                seq![],
                seq![],
            ),
        }
    }

    /// `claim_admin`: the recovery address takes the admin role after the
    /// admin has been inactive for longer than the threshold.
    pub open spec fn claim_admin(self, at: u32) -> Step<()> {
        match self.recovery {
            None => refuse(seq![], Error::NoEmergencyRecoveryAddress),
            Some(recovery) => if at <= self.last_admin_action + self.inactivity_threshold {
                refuse(seq![recovery], Error::InactivityThresholdNotReached)
            } else {
                done(
                    seq![recovery],
                    (),
                    BridgeView { admin: Some(recovery), recovery: None, ..self },
                    seq![],
                    seq![EventView::AdminClaimed { admin: recovery }],
                )
            },
        }
    }

    /// The inputs on which `claim_admin` aborts on an overflow.
    pub open spec fn claim_admin_overflows(self) -> bool {
        &&& self.recovery is Some
        &&& self.last_admin_action + self.inactivity_threshold > u32::MAX
    }

    /// `add_token`: whitelist a token (resetting its total). Admin only.
    pub open spec fn add_token(self, token: Seq<u8>, limit: i128) -> Step<()> {
        if limit <= 0 {
            refuse(seq![], Error::ZeroAmount)
        } else {
            match self.admin {
                None => refuse(seq![], Error::NotInitialized),
                Some(admin) => done(
                    seq![admin],
                    (),
                    BridgeView {
                        registry: self.registry.insert(
                            token,
                            TokenConfig { limit, total_deposited: 0 },
                        ),
                        ..self
                    },
                    seq![],
                    seq![EventView::TokenAdded { token }],
                ),
            }
        }
    }

    /// `remove_token`: take a token off the whitelist. Admin only.
    pub open spec fn remove_token(self, token: Seq<u8>) -> Step<()> {
        match self.admin {
            None => refuse(seq![], Error::NotInitialized),
            Some(admin) => if !self.registry.contains_key(token) {
                refuse(seq![admin], Error::TokenNotWhitelisted)
            } else {
                done(
                    seq![admin],
                    (),
                    BridgeView { registry: self.registry.remove(token), ..self },
                    seq![],
                    seq![EventView::TokenRemoved { token }],
                )
            },
        }
    }

    /// `set_cooldown`: set the per-address deposit cooldown. Admin only.
    pub open spec fn set_cooldown(self, ledgers: u32) -> Step<()> {
        match self.admin {
            None => refuse(seq![], Error::NotInitialized),
            Some(admin) => done(
                seq![admin],
                (),
                BridgeView { cooldown: ledgers, ..self },
                seq![],
                seq![],
            ),
        }
    }

    // ── Queries ───────────────────────────────────────────────────────

    /// The ledger of `user`'s last deposit while it still blocks a new one.
    pub open spec fn last_deposit_ledger(self, at: u32, user: Seq<u8>) -> Option<u32> {
        if self.cooldown_blocks(at, user) {
            Some(self.last_deposit[user])
        } else {
            None
        }
    }

    /// The receipts of `depositor` found scanning ids upward from `id`,
    /// at most `limit` of them.
    pub open spec fn receipts_of(self, depositor: Seq<u8>, id: int, limit: nat) -> Seq<ReceiptView>
        decreases self.receipts.len() - id, limit,
    {
        if id < 0 || id >= self.receipts.len() || limit == 0 {
            Seq::empty()
        } else if self.receipts[id].depositor == depositor {
            seq![self.receipts[id]] + self.receipts_of(depositor, id + 1, (limit - 1) as nat)
        } else {
            self.receipts_of(depositor, id + 1, limit)
        }
    }
}

/// Any one operation, with its arguments.
pub enum Operation {
    Init { admin: Seq<u8>, token: Seq<u8>, limit: i128 },
    Deposit { from: Seq<u8>, amount: i128, token: Seq<u8>, reference: Seq<u8> },
    Withdraw { to: Seq<u8>, amount: i128, token: Seq<u8>, balance: i128 },
    RequestWithdrawal { to: Seq<u8>, amount: i128, token: Seq<u8> },
    ExecuteWithdrawal { request_id: u64, partial_amount: Option<i128>, balance: i128 },
    CancelWithdrawal { request_id: u64 },
    RefundDeposit { receipt_id: u64 },
    SetDailyLimit { limit: i128 },
    SetLockPeriod { ledgers: u32 },
    SetLimit { token: Seq<u8>, new_limit: i128 },
    TransferAdmin { new_admin: Seq<u8> },
    AcceptAdmin { claimant: Seq<u8> },
    CancelAdminTransfer,
    QueueAdminAction { action_type: Seq<u8>, payload: Seq<u8>, delay_ledgers: u32 },
    ExecuteAdminAction { action_id: u64 },
    CancelAdminAction { action_id: u64 },
    SetEmergencyRecoveryAddress { address: Seq<u8> },
    SetInactivityThreshold { threshold_ledgers: u32 },
    ClaimAdmin,
    AddToken { token: Seq<u8>, limit: i128 },
    RemoveToken { token: Seq<u8> },
    SetCooldown { ledgers: u32 },
}

impl BridgeView {
    /// The state after running `op` at ledger `at` (unchanged if it fails).
    pub open spec fn after(self, at: u32, op: Operation) -> BridgeView {
        match op {
            Operation::Init { admin, token, limit } => self.init(at, admin, token, limit).post(self),
            Operation::Deposit { from, amount, token, reference } => self.deposit(
                at,
                from,
                amount,
                token,
                reference,
            ).post(self),
            Operation::Withdraw { to, amount, token, balance } => self.withdraw(
                at,
                to,
                amount,
                token,
                balance,
            ).post(self),
            Operation::RequestWithdrawal { to, amount, token } => self.request_withdrawal(
                at,
                to,
                amount,
                token,
            ).post(self),
            Operation::ExecuteWithdrawal { request_id, partial_amount, balance } =>
                self.execute_withdrawal(at, request_id, partial_amount, balance).post(self),
            Operation::CancelWithdrawal { request_id } => self.cancel_withdrawal(request_id).post(
                self,
            ),
            Operation::RefundDeposit { receipt_id } => self.refund_deposit(at, receipt_id).post(
                self,
            ),
            Operation::SetDailyLimit { limit } => self.set_daily_limit(limit).post(self),
            Operation::SetLockPeriod { ledgers } => self.set_lock_period(ledgers).post(self),
            Operation::SetLimit { token, new_limit } => self.set_limit(token, new_limit).post(self),
            Operation::TransferAdmin { new_admin } => self.transfer_admin(new_admin).post(self),
            Operation::AcceptAdmin { claimant } => self.accept_admin(claimant).post(self),
            Operation::CancelAdminTransfer => self.cancel_admin_transfer().post(self),
            Operation::QueueAdminAction { action_type, payload, delay_ledgers } =>
                self.queue_admin_action(at, action_type, payload, delay_ledgers).post(self),
            Operation::ExecuteAdminAction { action_id } => self.execute_admin_action(
                at,
                action_id,
            ).post(self),
            Operation::CancelAdminAction { action_id } => self.cancel_admin_action(action_id).post(
                self,
            ),
            Operation::SetEmergencyRecoveryAddress { address } =>
                self.set_emergency_recovery_address(at, address).post(self),
            Operation::SetInactivityThreshold { threshold_ledgers } =>
                self.set_inactivity_threshold(at, threshold_ledgers).post(self),
            Operation::ClaimAdmin => self.claim_admin(at).post(self),
            Operation::AddToken { token, limit } => self.add_token(token, limit).post(self),
            Operation::RemoveToken { token } => self.remove_token(token).post(self),
            Operation::SetCooldown { ledgers } => self.set_cooldown(ledgers).post(self),
        }
    }
}

} // verus!
