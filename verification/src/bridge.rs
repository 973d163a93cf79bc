use vstd::prelude::*;
use crate::addr::{Addr, copy_opt_addr, opt_addr};
use crate::addr_map::{AddrMap, entry_pairs, keys_distinct, map_of};
use crate::effects::{Event, Invocation, InvocationView, Transfer};
use crate::model::{BridgeView, lemma_recent, lemma_window_total_prefix, recent, window_total};
use crate::types::{
    DEFAULT_INACTIVITY_THRESHOLD, Error, MAX_REFERENCE_LEN, MIN_TIMELOCK_DELAY, QueuedAdminAction,
    WINDOW_LEDGERS,
    QueuedAdminActionView, Receipt, TokenConfig, WithdrawRequest, WithdrawRequestView,
};

verus! {

/// The view of an optional withdrawal request.
pub open spec fn opt_request(o: Option<WithdrawRequest>) -> Option<WithdrawRequestView> {
    match o {
        Some(r) => Some(r@),
        None => None,
    }
}

/// The view of an optional queued action.
pub open spec fn opt_action(o: Option<QueuedAdminAction>) -> Option<QueuedAdminActionView> {
    match o {
        Some(a) => Some(a@),
        None => None,
    }
}

/// The bridge's whole state as plain parts, for a host to store between
/// invocations. Each list of (address, value) entries stands for a map.
pub struct Snapshot {
    pub admin: Option<Addr>,
    pub pending_admin: Option<Addr>,
    pub token: Option<Addr>,
    pub registry: Vec<(Addr, TokenConfig)>,
    pub user_deposited: Vec<(Addr, i128)>,
    pub lock_period: u32,
    pub requests: Vec<Option<WithdrawRequest>>,
    pub receipts: Vec<Receipt>,
    pub daily_limit: Option<i128>,
    pub withdrawals: Vec<(u32, i128)>,
    pub cooldown: u32,
    pub last_deposit: Vec<(Addr, u32)>,
    pub actions: Vec<Option<QueuedAdminAction>>,
    pub recovery: Option<Addr>,
    pub last_admin_action: u32,
    pub inactivity_threshold: u32,
}

impl View for Snapshot {
    type V = BridgeView;

    open spec fn view(&self) -> BridgeView {
        BridgeView {
            admin: opt_addr(self.admin),
            pending_admin: opt_addr(self.pending_admin),
            token: opt_addr(self.token),
            registry: map_of(entry_pairs(self.registry@)),
            user_deposited: map_of(entry_pairs(self.user_deposited@)),
            lock_period: self.lock_period,
            requests: self.requests@.map_values(|o: Option<WithdrawRequest>| opt_request(o)),
            receipts: self.receipts@.map_values(|r: Receipt| r@),
            daily_limit: self.daily_limit,
            withdrawals: self.withdrawals@,
            cooldown: self.cooldown,
            last_deposit: map_of(entry_pairs(self.last_deposit@)),
            actions: self.actions@.map_values(|o: Option<QueuedAdminAction>| opt_action(o)),
            recovery: opt_addr(self.recovery),
            last_admin_action: self.last_admin_action,
            inactivity_threshold: self.inactivity_threshold,
        }
    }
}

impl Snapshot {
    /// Whether the parts describe a state that the bridge can be in: no
    /// address twice in any entry list, and the state is valid.
    pub open spec fn acceptable(&self) -> bool {
        &&& keys_distinct(entry_pairs(self.registry@))
        &&& keys_distinct(entry_pairs(self.user_deposited@))
        &&& keys_distinct(entry_pairs(self.last_deposit@))
        &&& self@.valid()
    }
}

/// The fiat bridge: its whole state, and one method per contract operation.
/// Each method runs against an `Invocation` that supplies the current
/// ledger and collects the authorisations, transfers and events that the
/// host must carry out.
pub struct FiatBridge {
    admin: Option<Addr>,
    pending_admin: Option<Addr>,
    token: Option<Addr>,
    registry: AddrMap<TokenConfig>,
    user_deposited: AddrMap<i128>,
    lock_period: u32,
    requests: Vec<Option<WithdrawRequest>>,
    receipts: Vec<Receipt>,
    daily_limit: Option<i128>,
    withdrawals: Vec<(u32, i128)>,
    cooldown: u32,
    last_deposit: AddrMap<u32>,
    actions: Vec<Option<QueuedAdminAction>>,
    recovery: Option<Addr>,
    last_admin_action: u32,
    inactivity_threshold: u32,
}

impl View for FiatBridge {
    type V = BridgeView;

    closed spec fn view(&self) -> BridgeView {
        BridgeView {
            admin: opt_addr(self.admin),
            pending_admin: opt_addr(self.pending_admin),
            token: opt_addr(self.token),
            registry: self.registry@,
            user_deposited: self.user_deposited@,
            lock_period: self.lock_period,
            requests: self.requests@.map_values(|o: Option<WithdrawRequest>| opt_request(o)),
            receipts: self.receipts@.map_values(|r: Receipt| r@),
            daily_limit: self.daily_limit,
            withdrawals: self.withdrawals@,
            cooldown: self.cooldown,
            last_deposit: self.last_deposit@,
            actions: self.actions@.map_values(|o: Option<QueuedAdminAction>| opt_action(o)),
            recovery: opt_addr(self.recovery),
            last_admin_action: self.last_admin_action,
            inactivity_threshold: self.inactivity_threshold,
        }
    }
}

impl FiatBridge {
    /// The representation invariant.
    pub closed spec fn wf(&self) -> bool {
        &&& self.registry.wf()
        &&& self.user_deposited.wf()
        &&& self.last_deposit.wf()
        &&& self@.valid()
    }

    /// A freshly deployed, uninitialised bridge.
    pub fn new() -> (r: FiatBridge)
        ensures
            r.wf(),
            r@ == BridgeView::empty(),
    {
        let r = FiatBridge {
            admin: None,
            pending_admin: None,
            token: None,
            registry: AddrMap::new(),
            user_deposited: AddrMap::new(),
            lock_period: 0,
            requests: Vec::new(),
            receipts: Vec::new(),
            daily_limit: None,
            withdrawals: Vec::new(),
            cooldown: 0,
            last_deposit: AddrMap::new(),
            actions: Vec::new(),
            recovery: None,
            last_admin_action: 0,
            inactivity_threshold: DEFAULT_INACTIVITY_THRESHOLD,
        };
        assert(r@ =~= BridgeView::empty());
        r
    }

    /// Lock tokens inside the bridge and issue a deposit receipt.
    /// The token must be whitelisted. Returns the receipt's id.
    pub fn deposit(
        &mut self,
        inv: &mut Invocation,
        from: Addr,
        amount: i128,
        token: Addr,
        reference: Vec<u8>,
    ) -> (r: Result<u64, Error>)
        requires
            old(self).wf(),
            !old(self)@.deposit_overflows(old(inv)@.sequence, from@, amount, token@, reference@),
        ensures
            final(self).wf(),
            old(self)@.deposit(old(inv)@.sequence, from@, amount, token@, reference@).holds(
                r,
                old(self)@,
                final(self)@,
                old(inv)@,
                final(inv)@,
            ),
    {
        let ghost pre = self@;
        let ghost inv0 = inv@;
        inv.require_auth(&from);
        assert(inv@.auths =~= inv0.auths + seq![from@]);
        let at = inv.sequence;
        if self.cooldown > 0 {
            match self.last_deposit.get(&from) {
                Some(last) => {
                    if at - last < self.cooldown {
                        return Err(Error::CooldownActive);
                    }
                },
                None => {},
            }
        }
        if reference.len() > MAX_REFERENCE_LEN as usize {
            return Err(Error::ReferenceTooLong);
        }
        if amount <= 0 {
            return Err(Error::ZeroAmount);
        }
        let config = match self.registry.get(&token) {
            Some(c) => c,
            None => {
                return Err(Error::TokenNotWhitelisted);
            },
        };
        if amount > config.limit {
            return Err(Error::ExceedsLimit);
        }
        inv.transfer(Transfer::In { token: token.copy(), from: from.copy(), amount });

        let receipt_id = self.receipts.len() as u64;
        self.receipts.push(
            Receipt {
                id: receipt_id,
                depositor: from.copy(),
                token: token.copy(),
                amount,
                ledger: at,
                reference,
                refunded: false,
            },
        );
        self.registry.set(
            &token,
            TokenConfig { limit: config.limit, total_deposited: config.total_deposited + amount },
        );
        let user_total = match self.user_deposited.get(&from) {
            Some(v) => v,
            None => 0,
        };
        self.user_deposited.set(&from, user_total + amount);

        inv.publish(Event::Deposit { from: from.copy(), amount });
        inv.publish(Event::ReceiptIssued { receipt_id });

        if self.cooldown > 0 {
            self.last_deposit.set(&from, at);
        }
        proof {
            let step = pre.deposit(inv0.sequence, from@, amount, token@, reference@);
            let c = step.outcome->Ok_0;
            assert(self@.receipts =~= c.state.receipts);
            assert(self@ =~= c.state);
            assert(inv@.transfers =~= inv0.transfers + c.transfers);
            assert(inv@.events =~= inv0.events + c.events);
            assert(inv@.auths =~= inv0.auths + step.auths);
        }
        Ok(receipt_id)
    }

    /// Demands the admin's authorisation, failing if there is no admin yet.
    fn require_admin(&self, inv: &mut Invocation) -> (r: Result<(), Error>)
        ensures
            final(inv)@ == (InvocationView { auths: old(inv)@.auths + self@.admin_auths(), ..old(inv)@ }),
            r is Ok <==> self@.admin is Some,
            r is Err ==> r == Err::<(), Error>(Error::NotInitialized),
    {
        let ghost inv0 = inv@;
        match &self.admin {
            None => {
                assert(inv0.auths + self@.admin_auths() =~= inv0.auths);
                Err(Error::NotInitialized)
            },
            Some(a) => {
                inv.require_auth(a);
                assert(inv@.auths =~= inv0.auths + self@.admin_auths());
                Ok(())
            },
        }
    }

    /// Records the current ledger as the time of the last admin action.
    fn update_last_admin_action_ledger(&mut self, sequence: u32)
        requires
            old(self).wf(),
        ensures
            final(self).wf(),
            final(self)@ == (BridgeView { last_admin_action: sequence, ..old(self)@ }),
    {
        self.last_admin_action = sequence;
        assert(self@ =~= BridgeView { last_admin_action: sequence, ..old(self)@ });
    }

    /// Initialise the bridge once: set the admin and whitelist the first token.
    pub fn init(&mut self, inv: &mut Invocation, admin: Addr, token: Addr, limit: i128) -> (r: Result<(), Error>)
        requires
            old(self).wf(),
        ensures
            final(self).wf(),
            old(self)@.init(old(inv)@.sequence, admin@, token@, limit).holds(
                r,
                old(self)@,
                final(self)@,
                old(inv)@,
                final(inv)@,
            ),
    {
        let ghost pre = self@;
        let ghost inv0 = inv@;
        assert(inv0.auths + Seq::<Seq<u8>>::empty() =~= inv0.auths);
        if self.admin.is_some() {
            return Err(Error::AlreadyInitialized);
        }
        if limit <= 0 {
            return Err(Error::ZeroAmount);
        }
        self.registry.set(&token, TokenConfig { limit, total_deposited: 0 });
        self.admin = Some(admin);
        self.token = Some(token);
        self.last_admin_action = inv.sequence;
        self.inactivity_threshold = DEFAULT_INACTIVITY_THRESHOLD;
        proof {
            let c = pre.init(inv0.sequence, admin@, token@, limit).outcome->Ok_0;
            assert(self@ =~= c.state);
            assert(inv@.transfers =~= inv0.transfers + c.transfers);
            assert(inv@.events =~= inv0.events + c.events);
        }
        Ok(())
    }

    /// Whether paying out `amount` at ledger `at` would break the daily cap.
    fn cap_exceeded(&self, at: u32, amount: i128) -> (r: bool)
        requires
            self.wf(),
            amount > 0,
        ensures
            r == self@.cap_blocks(at, amount),
    {
        let cap = match self.daily_limit {
            None => {
                return false;
            },
            Some(c) => c,
        };
        if cap <= 0 {
            return false;
        }
        let ghost log = self.withdrawals@;
        assert(self@.valid());
        assert forall|j: int| 0 <= j < log.len() implies #[trigger] log[j].1 > 0 by {
            assert(self@.withdrawals[j] == log[j]);
        }
        let mut acc: i128 = 0;
        let mut i: usize = 0;
        assert(log.take(0) =~= Seq::<(u32, i128)>::empty());
        while i < self.withdrawals.len()
            invariant
                i <= log.len(),
                log == self.withdrawals@,
                self.daily_limit == Some(cap),
                amount > 0,
                cap > 0,
                0 <= acc <= cap,
                acc == window_total(log.take(i as int), at),
                forall|j: int| 0 <= j < log.len() ==> #[trigger] log[j].1 > 0,
            decreases log.len() - i,
        {
            let (made, paid) = self.withdrawals[i];
            assert(log.take(i + 1).drop_last() =~= log.take(i as int));
            assert(log.take(i + 1).last() == log[i as int]);
            if (at as u64) < (made as u64) + (WINDOW_LEDGERS as u64) {
                if paid > cap - acc {
                    proof {
                        assert(window_total(log.take(i + 1), at) == acc + paid);
                        lemma_window_total_prefix(log, at, i + 1);
                    }
                    return true;
                }
                acc = acc + paid;
            }
            i = i + 1;
        }
        assert(log.take(log.len() as int) =~= log);
        amount > cap - acc
    }

    /// Logs a payout of `amount` at ledger `at`, dropping payouts that no
    /// longer count.
    fn record_withdrawal(&mut self, at: u32, amount: i128)
        requires
            old(self).wf(),
            amount > 0,
        ensures
            final(self).wf(),
            final(self)@ == (BridgeView { withdrawals: old(self)@.logged(at, amount), ..old(self)@ }),
    {
        let ghost log = self.withdrawals@;
        let mut kept: Vec<(u32, i128)> = Vec::new();
        let mut i: usize = 0;
        assert(log.take(0) =~= Seq::<(u32, i128)>::empty());
        while i < self.withdrawals.len()
            invariant
                i <= log.len(),
                log == self.withdrawals@,
                kept@ == recent(log.take(i as int), at),
            decreases log.len() - i,
        {
            let entry = self.withdrawals[i];
            assert(log.take(i + 1).drop_last() =~= log.take(i as int));
            assert(log.take(i + 1).last() == log[i as int]);
            if (at as u64) < (entry.0 as u64) + (WINDOW_LEDGERS as u64) {
                kept.push(entry);
            }
            i = i + 1;
        }
        assert(log.take(log.len() as int) =~= log);
        kept.push((at, amount));
        proof {
            assert(old(self)@.valid());
            lemma_recent(log, at);
            let r = recent(log, at);
            assert forall|j: int| 0 <= j < kept@.len() implies #[trigger] kept@[j].1 > 0 by {
                if j < r.len() {
                    assert(kept@[j] == r[j]);
                }
            }
        }
        self.withdrawals = kept;
        assert(self@ =~= BridgeView { withdrawals: old(self)@.logged(at, amount), ..old(self)@ });
    }

    /// Withdraw tokens from the bridge. Both `to` and the admin must authorise.
    /// There is no whitelist check, so balances of removed tokens can be drained.
    /// `balance` is the bridge's current balance of `token`. The payout is
    /// held to the daily cap.
    pub fn withdraw(
        &mut self,
        inv: &mut Invocation,
        to: Addr,
        amount: i128,
        token: Addr,
        balance: i128,
    ) -> (r: Result<(), Error>)
        requires
            old(self).wf(),
        ensures
            final(self).wf(),
            old(self)@.withdraw(old(inv)@.sequence, to@, amount, token@, balance).holds(
                r,
                old(self)@,
                final(self)@,
                old(inv)@,
                final(inv)@,
            ),
    {
        let ghost pre = self@;
        let ghost inv0 = inv@;
        inv.require_auth(&to);
        assert(inv@.auths =~= inv0.auths + seq![to@]);
        if amount <= 0 {
            return Err(Error::ZeroAmount);
        }
        self.require_admin(inv)?;
        assert(inv@.auths =~= inv0.auths + seq![to@, pre.admin->Some_0]);
        if amount > balance {
            return Err(Error::InsufficientFunds);
        }
        if self.cap_exceeded(inv.sequence, amount) {
            return Err(Error::ExceedsLimit);
        }
        self.record_withdrawal(inv.sequence, amount);
        inv.transfer(Transfer::Out { token: token.copy(), to: to.copy(), amount });
        inv.publish(Event::Withdraw { to, amount });
        proof {
            let c = pre.withdraw(inv0.sequence, to@, amount, token@, balance).outcome->Ok_0;
            assert(self@ =~= c.state);
            assert(inv@.transfers =~= inv0.transfers + c.transfers);
            assert(inv@.events =~= inv0.events + c.events);
        }
        Ok(())
    }

    /// Register a withdrawal request that matures after the lock period.
    /// Admin only. Returns the request's id.
    pub fn request_withdrawal(
        &mut self,
        inv: &mut Invocation,
        to: Addr,
        amount: i128,
        token: Addr,
    ) -> (r: Result<u64, Error>)
        requires
            old(self).wf(),
            !old(self)@.request_withdrawal_overflows(old(inv)@.sequence, amount),
        ensures
            final(self).wf(),
            old(self)@.request_withdrawal(old(inv)@.sequence, to@, amount, token@).holds(
                r,
                old(self)@,
                final(self)@,
                old(inv)@,
                final(inv)@,
            ),
    {
        let ghost pre = self@;
        let ghost inv0 = inv@;
        self.require_admin(inv)?;
        if amount <= 0 {
            return Err(Error::ZeroAmount);
        }
        let unlock_ledger = inv.sequence + self.lock_period;
        let request_id = self.requests.len() as u64;
        self.requests.push(Some(WithdrawRequest { to, token, amount, unlock_ledger }));
        proof {
            let c = pre.request_withdrawal(inv0.sequence, to@, amount, token@).outcome->Ok_0;
            assert(self@.requests =~= c.state.requests);
            assert(self@ =~= c.state);
            assert(inv@.transfers =~= inv0.transfers + c.transfers);
            assert(inv@.events =~= inv0.events + c.events);
        }
        Ok(request_id)
    }

    /// Execute a matured withdrawal request, in full (`None`) or in part.
    /// `balance` is the bridge's current balance of the request's token.
    pub fn execute_withdrawal(
        &mut self,
        inv: &mut Invocation,
        request_id: u64,
        partial_amount: Option<i128>,
        balance: i128,
    ) -> (r: Result<(), Error>)
        requires
            old(self).wf(),
        ensures
            final(self).wf(),
            old(self)@.execute_withdrawal(old(inv)@.sequence, request_id, partial_amount, balance).holds(
                r,
                old(self)@,
                final(self)@,
                old(inv)@,
                final(inv)@,
            ),
    {
        let ghost pre = self@;
        let ghost inv0 = inv@;
        assert(inv0.auths + Seq::<Seq<u8>>::empty() =~= inv0.auths);
        if request_id >= self.requests.len() as u64 {
            return Err(Error::RequestNotFound);
        }
        let idx = request_id as usize;
        let (to, token, amount, unlock_ledger) = match &self.requests[idx] {
            None => {
                return Err(Error::RequestNotFound);
            },
            Some(req) => (req.to.copy(), req.token.copy(), req.amount, req.unlock_ledger),
        };
        if inv.sequence < unlock_ledger {
            return Err(Error::WithdrawalLocked);
        }
        let execute_amount = match partial_amount {
            Some(part) => {
                if part <= 0 || part > amount {
                    return Err(Error::ZeroAmount);
                }
                if part > balance {
                    return Err(Error::InsufficientFunds);
                }
                if self.cap_exceeded(inv.sequence, part) {
                    return Err(Error::ExceedsLimit);
                }
                part
            },
            None => {
                if amount > balance {
                    return Err(Error::InsufficientFunds);
                }
                if self.cap_exceeded(inv.sequence, amount) {
                    return Err(Error::ExceedsLimit);
                }
                amount
            },
        };
        self.record_withdrawal(inv.sequence, execute_amount);
        let ghost logged = self@.withdrawals;
        assert(self@.valid());
        assert(forall|i: int| 0 <= i < logged.len() ==> #[trigger] logged[i].1 > 0);
        inv.transfer(Transfer::Out { token: token.copy(), to: to.copy(), amount: execute_amount });
        match partial_amount {
            Some(part) => {
                let remaining = amount - part;
                if remaining <= 0 {
                    self.requests.set(idx, None);
                } else {
                    self.requests.set(
                        idx,
                        Some(WithdrawRequest { to, token, amount: remaining, unlock_ledger }),
                    );
                }
                inv.publish(
                    Event::PartialWithdrawalExecuted {
                        request_id,
                        executed: execute_amount,
                        remaining,
                    },
                );
            },
            None => {
                self.requests.set(idx, None);
            },
        }
        proof {
            let c = pre.execute_withdrawal(
                inv0.sequence,
                request_id,
                partial_amount,
                balance,
            ).outcome->Ok_0;
            assert(self@.requests =~= c.state.requests);
            assert forall|k: int|
                0 <= k < self@.requests.len() && (#[trigger] self@.requests[k]) is Some
                implies self@.requests[k]->Some_0.amount > 0 by {
                if k != request_id as int {
                    assert(self@.requests[k] == pre.requests[k]);
                }
            }
            assert(self@.withdrawals == logged);
            assert(self@ =~= c.state);
            assert(inv@.transfers =~= inv0.transfers + c.transfers);
            assert(inv@.events =~= inv0.events + c.events);
        }
        Ok(())
    }

    /// Cancel a pending withdrawal request. Admin only.
    pub fn cancel_withdrawal(&mut self, inv: &mut Invocation, request_id: u64) -> (r: Result<(), Error>)
        requires
            old(self).wf(),
        ensures
            final(self).wf(),
            old(self)@.cancel_withdrawal(request_id).holds(r, old(self)@, final(self)@, old(inv)@, final(inv)@),
    {
        let ghost pre = self@;
        let ghost inv0 = inv@;
        self.require_admin(inv)?;
        if request_id >= self.requests.len() as u64 {
            return Err(Error::RequestNotFound);
        }
        let idx = request_id as usize;
        if self.requests[idx].is_none() {
            return Err(Error::RequestNotFound);
        }
        self.requests.set(idx, None);
        assert(self@.requests =~= pre.requests.update(request_id as int, None));
        proof {
            let c = pre.cancel_withdrawal(request_id).outcome->Ok_0;
            assert(self@ =~= c.state);
            assert(inv@.transfers =~= inv0.transfers + c.transfers);
            assert(inv@.events =~= inv0.events + c.events);
        }
        Ok(())
    }

    /// Refund a deposit receipt to its depositor, in the token that was
    /// deposited, and mark it refunded. Admin only. Used when the off-chain fiat payout fails.
    pub fn refund_deposit(&mut self, inv: &mut Invocation, receipt_id: u64) -> (r: Result<(), Error>)
        requires
            old(self).wf(),
        ensures
            final(self).wf(),
            old(self)@.refund_deposit(old(inv)@.sequence, receipt_id).holds(r, old(self)@, final(self)@, old(inv)@, final(inv)@),
    {
        let ghost pre = self@;
        let ghost inv0 = inv@;
        self.require_admin(inv)?;
        if receipt_id >= self.receipts.len() as u64 {
            return Err(Error::ReceiptNotFound);
        }
        let idx = receipt_id as usize;
        if self.receipts[idx].refunded {
            return Err(Error::AlreadyRefunded);
        }
        let mut receipt = self.receipts[idx].copy();
        inv.transfer(
            Transfer::Out {
                token: receipt.token.copy(),
                to: receipt.depositor.copy(),
                amount: receipt.amount,
            },
        );
        receipt.refunded = true;
        let depositor = receipt.depositor.copy();
        let ghost rv = receipt@;
        self.receipts.set(idx, receipt);
        assert(self@.receipts =~= pre.receipts.update(receipt_id as int, rv));
        self.update_last_admin_action_ledger(inv.sequence);
        inv.publish(Event::Refund { receipt_id, depositor });
        proof {
            let c = pre.refund_deposit(inv0.sequence, receipt_id).outcome->Ok_0;
            assert(self@ =~= c.state);
            assert(inv@.transfers =~= inv0.transfers + c.transfers);
            assert(inv@.events =~= inv0.events + c.events);
        }
        Ok(())
    }

    /// Set the most tokens that may be withdrawn within a rolling 24-hour window
    /// (~17 280 ledgers); 0 disables the cap. Admin only.
    pub fn set_daily_limit(&mut self, inv: &mut Invocation, limit: i128) -> (r: Result<(), Error>)
        requires
            old(self).wf(),
        ensures
            final(self).wf(),
            old(self)@.set_daily_limit(limit).holds(r, old(self)@, final(self)@, old(inv)@, final(inv)@),
    {
        let ghost pre = self@;
        let ghost inv0 = inv@;
        self.require_admin(inv)?;
        if limit < 0 {
            return Err(Error::ZeroAmount);
        }
        self.daily_limit = Some(limit);
        proof {
            let c = pre.set_daily_limit(limit).outcome->Ok_0;
            assert(self@ =~= c.state);
            assert(inv@.transfers =~= inv0.transfers + c.transfers);
            assert(inv@.events =~= inv0.events + c.events);
        }
        Ok(())
    }

    /// Set the mandatory delay for withdrawals (in ledgers). Admin only.
    pub fn set_lock_period(&mut self, inv: &mut Invocation, ledgers: u32) -> (r: Result<(), Error>)
        requires
            old(self).wf(),
        ensures
            final(self).wf(),
            old(self)@.set_lock_period(ledgers).holds(r, old(self)@, final(self)@, old(inv)@, final(inv)@),
    {
        let ghost pre = self@;
        let ghost inv0 = inv@;
        self.require_admin(inv)?;
        self.lock_period = ledgers;
        proof {
            let c = pre.set_lock_period(ledgers).outcome->Ok_0;
            assert(self@ =~= c.state);
            assert(inv@.transfers =~= inv0.transfers + c.transfers);
            assert(inv@.events =~= inv0.events + c.events);
        }
        Ok(())
    }

    /// Update the per-deposit limit of a whitelisted token. Admin only.
    pub fn set_limit(&mut self, inv: &mut Invocation, token: Addr, new_limit: i128) -> (r: Result<(), Error>)
        requires
            old(self).wf(),
        ensures
            final(self).wf(),
            old(self)@.set_limit(token@, new_limit).holds(r, old(self)@, final(self)@, old(inv)@, final(inv)@),
    {
        let ghost pre = self@;
        let ghost inv0 = inv@;
        if new_limit <= 0 {
            assert(inv@.auths =~= inv0.auths + Seq::<Seq<u8>>::empty());
            return Err(Error::ZeroAmount);
        }
        self.require_admin(inv)?;
        let config = match self.registry.get(&token) {
            None => {
                return Err(Error::TokenNotWhitelisted);
            },
            Some(c) => c,
        };
        self.registry.set(&token, TokenConfig { limit: new_limit, total_deposited: config.total_deposited });
        proof {
            let c = pre.set_limit(token@, new_limit).outcome->Ok_0;
            assert(self@ =~= c.state);
            assert(inv@.transfers =~= inv0.transfers + c.transfers);
            assert(inv@.events =~= inv0.events + c.events);
        }
        Ok(())
    }

    /// Nominate a new admin. The current admin stays active until the nominee
    /// accepts. Admin only.
    pub fn transfer_admin(&mut self, inv: &mut Invocation, new_admin: Addr) -> (r: Result<(), Error>)
        requires
            old(self).wf(),
        ensures
            final(self).wf(),
            old(self)@.transfer_admin(new_admin@).holds(r, old(self)@, final(self)@, old(inv)@, final(inv)@),
    {
        let ghost pre = self@;
        let ghost inv0 = inv@;
        self.require_admin(inv)?;
        self.pending_admin = Some(new_admin.copy());
        inv.publish(Event::AdminNominated { new_admin });
        proof {
            let c = pre.transfer_admin(new_admin@).outcome->Ok_0;
            assert(self@ =~= c.state);
            assert(inv@.transfers =~= inv0.transfers + c.transfers);
            assert(inv@.events =~= inv0.events + c.events);
        }
        Ok(())
    }

    /// Accept a pending nomination: the nominee, who must authorise, becomes
    /// the admin. Until then the existing admin remains active.
    pub fn accept_admin(&mut self, inv: &mut Invocation, claimant: Addr) -> (r: Result<(), Error>)
        requires
            old(self).wf(),
        ensures
            final(self).wf(),
            old(self)@.accept_admin(claimant@).holds(r, old(self)@, final(self)@, old(inv)@, final(inv)@),
    {
        let ghost pre = self@;
        let ghost inv0 = inv@;
        assert(inv0.auths + Seq::<Seq<u8>>::empty() =~= inv0.auths);
        match &self.pending_admin {
            None => {
                return Err(Error::NoPendingAdmin);
            },
            Some(pending) => {
                if !claimant.same(pending) {
                    return Err(Error::Unauthorized);
                }
            },
        }
        inv.require_auth(&claimant);
        assert(inv@.auths =~= inv0.auths + seq![claimant@]);
        self.admin = Some(claimant.copy());
        self.pending_admin = None;
        inv.publish(Event::AdminAccepted { admin: claimant });
        proof {
            let c = pre.accept_admin(claimant@).outcome->Ok_0;
            assert(self@ =~= c.state);
            assert(inv@.transfers =~= inv0.transfers + c.transfers);
            assert(inv@.events =~= inv0.events + c.events);
        }
        Ok(())
    }

    /// Cancel a pending admin nomination. Admin only.
    pub fn cancel_admin_transfer(&mut self, inv: &mut Invocation) -> (r: Result<(), Error>)
        requires
            old(self).wf(),
        ensures
            final(self).wf(),
            old(self)@.cancel_admin_transfer().holds(r, old(self)@, final(self)@, old(inv)@, final(inv)@),
    {
        let ghost pre = self@;
        let ghost inv0 = inv@;
        self.require_admin(inv)?;
        let pending = match &self.pending_admin {
            None => {
                return Err(Error::NoPendingAdmin);
            },
            Some(p) => p.copy(),
        };
        self.pending_admin = None;
        inv.publish(Event::AdminTransferCancelled { pending });
        proof {
            let c = pre.cancel_admin_transfer().outcome->Ok_0;
            assert(self@ =~= c.state);
            assert(inv@.transfers =~= inv0.transfers + c.transfers);
            assert(inv@.events =~= inv0.events + c.events);
        }
        Ok(())
    }

    /// Queue an admin action for execution after at least `MIN_TIMELOCK_DELAY`
    /// ledgers. Admin only. Returns the action's id.
    pub fn queue_admin_action(&mut self, inv: &mut Invocation, action_type: Vec<u8>, payload: Vec<u8>, delay_ledgers: u32) -> (r: Result<u64, Error>)
        requires
            old(self).wf(),
            !old(self)@.queue_admin_action_overflows(old(inv)@.sequence, delay_ledgers),
        ensures
            final(self).wf(),
            old(self)@.queue_admin_action(old(inv)@.sequence, action_type@, payload@, delay_ledgers).holds(r, old(self)@, final(self)@, old(inv)@, final(inv)@),
    {
        let ghost pre = self@;
        let ghost inv0 = inv@;
        self.require_admin(inv)?;
        if delay_ledgers < MIN_TIMELOCK_DELAY {
            return Err(Error::ActionNotReady);
        }
        let current_ledger = inv.sequence;
        let action_id = self.actions.len() as u64;
        let event_type = crate::addr::copy_bytes(&action_type);
        let action = QueuedAdminAction {
            action_type,
            payload,
            target_ledger: current_ledger + delay_ledgers,
            queued_ledger: current_ledger,
        };
        let ghost av = action@;
        self.actions.push(Some(action));
        assert(self@.actions =~= pre.actions.push(Some(av)));
        inv.publish(Event::ActionQueued { action_id, action_type: event_type, delay_ledgers });
        proof {
            let c = pre.queue_admin_action(inv0.sequence, action_type@, payload@, delay_ledgers).outcome->Ok_0;
            assert(self@ =~= c.state);
            assert(inv@.transfers =~= inv0.transfers + c.transfers);
            assert(inv@.events =~= inv0.events + c.events);
        }
        Ok(action_id)
    }

    /// Execute a queued admin action once its timelock has passed. Admin only.
    pub fn execute_admin_action(&mut self, inv: &mut Invocation, action_id: u64) -> (r: Result<(), Error>)
        requires
            old(self).wf(),
        ensures
            final(self).wf(),
            old(self)@.execute_admin_action(old(inv)@.sequence, action_id).holds(r, old(self)@, final(self)@, old(inv)@, final(inv)@),
    {
        let ghost pre = self@;
        let ghost inv0 = inv@;
        self.require_admin(inv)?;
        if action_id >= self.actions.len() as u64 {
            return Err(Error::ActionNotQueued);
        }
        let idx = action_id as usize;
        let (action_type, target_ledger) = match &self.actions[idx] {
            None => {
                return Err(Error::ActionNotQueued);
            },
            Some(a) => (crate::addr::copy_bytes(&a.action_type), a.target_ledger),
        };
        if inv.sequence <= target_ledger {
            return Err(Error::ActionNotReady);
        }
        self.actions.set(idx, None);
        assert(self@.actions =~= pre.actions.update(action_id as int, None));
        self.update_last_admin_action_ledger(inv.sequence);
        inv.publish(Event::ActionExecuted { action_id, action_type });
        proof {
            let c = pre.execute_admin_action(inv0.sequence, action_id).outcome->Ok_0;
            assert(self@ =~= c.state);
            assert(inv@.transfers =~= inv0.transfers + c.transfers);
            assert(inv@.events =~= inv0.events + c.events);
        }
        Ok(())
    }

    /// Cancel a queued admin action. Admin only.
    pub fn cancel_admin_action(&mut self, inv: &mut Invocation, action_id: u64) -> (r: Result<(), Error>)
        requires
            old(self).wf(),
        ensures
            final(self).wf(),
            old(self)@.cancel_admin_action(action_id).holds(r, old(self)@, final(self)@, old(inv)@, final(inv)@),
    {
        let ghost pre = self@;
        let ghost inv0 = inv@;
        self.require_admin(inv)?;
        if action_id >= self.actions.len() as u64 {
            return Err(Error::ActionNotQueued);
        }
        let idx = action_id as usize;
        let action_type = match &self.actions[idx] {
            None => {
                return Err(Error::ActionNotQueued);
            },
            Some(a) => crate::addr::copy_bytes(&a.action_type),
        };
        self.actions.set(idx, None);
        assert(self@.actions =~= pre.actions.update(action_id as int, None));
        inv.publish(Event::ActionCancelled { action_id, action_type });
        proof {
            let c = pre.cancel_admin_action(action_id).outcome->Ok_0;
            assert(self@ =~= c.state);
            assert(inv@.transfers =~= inv0.transfers + c.transfers);
            assert(inv@.events =~= inv0.events + c.events);
        }
        Ok(())
    }

    /// Set the emergency recovery address. Admin only.
    pub fn set_emergency_recovery_address(&mut self, inv: &mut Invocation, address: Addr) -> (r: Result<(), Error>)
        requires
            old(self).wf(),
        ensures
            final(self).wf(),
            old(self)@.set_emergency_recovery_address(old(inv)@.sequence, address@).holds(r, old(self)@, final(self)@, old(inv)@, final(inv)@),
    {
        let ghost pre = self@;
        let ghost inv0 = inv@;
        self.require_admin(inv)?;
        self.recovery = Some(address);
        self.update_last_admin_action_ledger(inv.sequence);
        proof {
            let c = pre.set_emergency_recovery_address(inv0.sequence, address@).outcome->Ok_0;
            assert(self@ =~= c.state);
            assert(inv@.transfers =~= inv0.transfers + c.transfers);
            assert(inv@.events =~= inv0.events + c.events);
        }
        Ok(())
    }

    /// Set the inactivity threshold for emergency recovery. Admin only.
    pub fn set_inactivity_threshold(&mut self, inv: &mut Invocation, threshold_ledgers: u32) -> (r: Result<(), Error>)
        requires
            old(self).wf(),
        ensures
            final(self).wf(),
            old(self)@.set_inactivity_threshold(old(inv)@.sequence, threshold_ledgers).holds(r, old(self)@, final(self)@, old(inv)@, final(inv)@),
    {
        let ghost pre = self@;
        let ghost inv0 = inv@;
        self.require_admin(inv)?;
        self.inactivity_threshold = threshold_ledgers;
        self.update_last_admin_action_ledger(inv.sequence);
        proof {
            let c = pre.set_inactivity_threshold(inv0.sequence, threshold_ledgers).outcome->Ok_0;
            assert(self@ =~= c.state);
            assert(inv@.transfers =~= inv0.transfers + c.transfers);
            assert(inv@.events =~= inv0.events + c.events);
        }
        Ok(())
    }

    /// Claim the admin role with the emergency recovery address, once the admin
    /// has been inactive for longer than the inactivity threshold.
    pub fn claim_admin(&mut self, inv: &mut Invocation) -> (r: Result<(), Error>)
        requires
            old(self).wf(),
            !old(self)@.claim_admin_overflows(),
        ensures
            final(self).wf(),
            old(self)@.claim_admin(old(inv)@.sequence).holds(r, old(self)@, final(self)@, old(inv)@, final(inv)@),
    {
        let ghost pre = self@;
        let ghost inv0 = inv@;
        assert(inv0.auths + Seq::<Seq<u8>>::empty() =~= inv0.auths);
        let recovery = match &self.recovery {
            None => {
                return Err(Error::NoEmergencyRecoveryAddress);
            },
            Some(a) => a.copy(),
        };
        inv.require_auth(&recovery);
        assert(inv@.auths =~= inv0.auths + seq![recovery@]);
        if inv.sequence <= self.last_admin_action + self.inactivity_threshold {
            return Err(Error::InactivityThresholdNotReached);
        }
        self.admin = Some(recovery.copy());
        self.recovery = None;
        inv.publish(Event::AdminClaimed { admin: recovery });
        proof {
            let c = pre.claim_admin(inv0.sequence).outcome->Ok_0;
            assert(self@ =~= c.state);
            assert(inv@.transfers =~= inv0.transfers + c.transfers);
            assert(inv@.events =~= inv0.events + c.events);
        }
        Ok(())
    }

    /// Whitelist a token with a per-deposit limit (its total starts at 0).
    /// Admin only.
    pub fn add_token(&mut self, inv: &mut Invocation, token: Addr, limit: i128) -> (r: Result<(), Error>)
        requires
            old(self).wf(),
        ensures
            final(self).wf(),
            old(self)@.add_token(token@, limit).holds(r, old(self)@, final(self)@, old(inv)@, final(inv)@),
    {
        let ghost pre = self@;
        let ghost inv0 = inv@;
        if limit <= 0 {
            assert(inv@.auths =~= inv0.auths + Seq::<Seq<u8>>::empty());
            return Err(Error::ZeroAmount);
        }
        self.require_admin(inv)?;
        self.registry.set(&token, TokenConfig { limit, total_deposited: 0 });
        inv.publish(Event::TokenAdded { token });
        proof {
            let c = pre.add_token(token@, limit).outcome->Ok_0;
            assert(self@ =~= c.state);
            assert(inv@.transfers =~= inv0.transfers + c.transfers);
            assert(inv@.events =~= inv0.events + c.events);
        }
        Ok(())
    }

    /// Remove a token from the whitelist. Admin only. Balances already held
    /// are unaffected and can still be withdrawn.
    pub fn remove_token(&mut self, inv: &mut Invocation, token: Addr) -> (r: Result<(), Error>)
        requires
            old(self).wf(),
        ensures
            final(self).wf(),
            old(self)@.remove_token(token@).holds(r, old(self)@, final(self)@, old(inv)@, final(inv)@),
    {
        let ghost pre = self@;
        let ghost inv0 = inv@;
        self.require_admin(inv)?;
        if !self.registry.contains(&token) {
            return Err(Error::TokenNotWhitelisted);
        }
        self.registry.remove(&token);
        inv.publish(Event::TokenRemoved { token });
        proof {
            let c = pre.remove_token(token@).outcome->Ok_0;
            assert(self@ =~= c.state);
            assert(inv@.transfers =~= inv0.transfers + c.transfers);
            assert(inv@.events =~= inv0.events + c.events);
        }
        Ok(())
    }

    /// Set the per-address deposit cooldown (in ledgers). Admin only.
    pub fn set_cooldown(&mut self, inv: &mut Invocation, ledgers: u32) -> (r: Result<(), Error>)
        requires
            old(self).wf(),
        ensures
            final(self).wf(),
            old(self)@.set_cooldown(ledgers).holds(r, old(self)@, final(self)@, old(inv)@, final(inv)@),
    {
        let ghost pre = self@;
        let ghost inv0 = inv@;
        self.require_admin(inv)?;
        self.cooldown = ledgers;
        proof {
            let c = pre.set_cooldown(ledgers).outcome->Ok_0;
            assert(self@ =~= c.state);
            assert(inv@.transfers =~= inv0.transfers + c.transfers);
            assert(inv@.events =~= inv0.events + c.events);
        }
        Ok(())
    }

    // ── Queries ───────────────────────────────────────────────────────

    /// The current admin.
    pub fn get_admin(&self) -> (r: Result<Addr, Error>)
        ensures
            match self@.admin {
                Some(a) => r matches Ok(x) && x@ == a,
                None => r == Err::<Addr, Error>(Error::NotInitialized),
            },
    {
        match &self.admin {
            Some(a) => Ok(a.copy()),
            None => Err(Error::NotInitialized),
        }
    }

    /// The currently nominated (pending) admin, if any.
    pub fn get_pending_admin(&self) -> (r: Option<Addr>)
        ensures
            opt_addr(r) == self@.pending_admin,
    {
        copy_opt_addr(&self.pending_admin)
    }

    /// The default token registered by `init`.
    pub fn get_token(&self) -> (r: Result<Addr, Error>)
        ensures
            match self@.token {
                Some(t) => r matches Ok(x) && x@ == t,
                None => r == Err::<Addr, Error>(Error::NotInitialized),
            },
    {
        match &self.token {
            Some(t) => Ok(t.copy()),
            None => Err(Error::NotInitialized),
        }
    }

    /// The configuration of the default token.
    fn default_config(&self) -> (r: Result<TokenConfig, Error>)
        requires
            self.wf(),
        ensures
            r == (match self@.token {
                Some(t) => if self@.registry.contains_key(t) {
                    Ok(self@.registry[t])
                } else {
                    Err(Error::TokenNotWhitelisted)
                },
                None => Err(Error::NotInitialized),
            }),
    {
        match &self.token {
            None => Err(Error::NotInitialized),
            Some(t) => match self.registry.get(t) {
                Some(c) => Ok(c),
                None => Err(Error::TokenNotWhitelisted),
            },
        }
    }

    /// The per-deposit limit of the default token: `NotInitialized` before
    /// `init`, `TokenNotWhitelisted` once the default token has been removed.
    pub fn get_limit(&self) -> (r: Result<i128, Error>)
        requires
            self.wf(),
        ensures
            r == (match self@.token {
                Some(t) => if self@.registry.contains_key(t) {
                    Ok(self@.registry[t].limit)
                } else {
                    Err(Error::TokenNotWhitelisted)
                },
                None => Err(Error::NotInitialized),
            }),
    {
        let c = self.default_config()?;
        Ok(c.limit)
    }

    /// The cumulative deposit total of the default token: `NotInitialized`
    /// before `init`, `TokenNotWhitelisted` once the default token has been removed.
    pub fn get_total_deposited(&self) -> (r: Result<i128, Error>)
        requires
            self.wf(),
        ensures
            r == (match self@.token {
                Some(t) => if self@.registry.contains_key(t) {
                    Ok(self@.registry[t].total_deposited)
                } else {
                    Err(Error::TokenNotWhitelisted)
                },
                None => Err(Error::NotInitialized),
            }),
    {
        let c = self.default_config()?;
        Ok(c.total_deposited)
    }

    /// The running total of `user`'s deposits; 0 if the user never deposited.
    pub fn get_user_deposited(&self, user: Addr) -> (r: Result<i128, Error>)
        requires
            self.wf(),
        ensures
            r == (if self@.admin is Some {
                Ok(self@.user_total(user@) as i128)
            } else {
                Err(Error::NotInitialized)
            }),
    {
        if self.admin.is_none() {
            return Err(Error::NotInitialized);
        }
        match self.user_deposited.get(&user) {
            Some(v) => Ok(v),
            None => Ok(0),
        }
    }

    /// A pending withdrawal request; `None` once executed or cancelled.
    pub fn get_withdrawal_request(&self, request_id: u64) -> (r: Option<WithdrawRequest>)
        ensures
            opt_request(r) == (if self@.has_request(request_id) {
                self@.requests[request_id as int]
            } else {
                None
            }),
    {
        if request_id >= self.requests.len() as u64 {
            return None;
        }
        match &self.requests[request_id as usize] {
            Some(req) => Some(req.copy()),
            None => None,
        }
    }

    /// The lock period for withdrawal requests, in ledgers.
    pub fn get_lock_period(&self) -> (r: u32)
        ensures
            r == self@.lock_period,
    {
        self.lock_period
    }

    /// A token's configuration (limit and cumulative deposits), if whitelisted.
    pub fn get_token_config(&self, token: Addr) -> (r: Option<TokenConfig>)
        requires
            self.wf(),
        ensures
            r == (if self@.registry.contains_key(token@) {
                Some(self@.registry[token@])
            } else {
                None
            }),
    {
        self.registry.get(&token)
    }

    /// A deposit receipt by id, if one was issued.
    pub fn get_receipt(&self, id: u64) -> (r: Option<Receipt>)
        ensures
            match r {
                Some(x) => id < self@.receipts.len() && x@ == self@.receipts[id as int],
                None => id >= self@.receipts.len(),
            },
    {
        if id >= self.receipts.len() as u64 {
            return None;
        }
        Some(self.receipts[id as usize].copy())
    }

    /// Up to `limit` receipts of `depositor`, scanning ids upward from `from_id`.
    pub fn get_receipts_by_depositor(&self, depositor: Addr, from_id: u64, limit: u32) -> (r: Vec<
        Receipt,
    >)
        ensures
            r@.map_values(|x: Receipt| x@) == self@.receipts_of(depositor@, from_id as int, limit as nat),
    {
        let counter = self.receipts.len() as u64;
        let mut results: Vec<Receipt> = Vec::new();
        let mut found: u32 = 0;
        let mut id = from_id;
        assert(results@.map_values(|x: Receipt| x@) + self@.receipts_of(depositor@, id as int, limit as nat)
            =~= self@.receipts_of(depositor@, from_id as int, limit as nat));
        while id < counter && found < limit
            invariant
                counter == self@.receipts.len(),
                counter == self.receipts.len(),
                found <= limit,
                results@.map_values(|x: Receipt| x@) + self@.receipts_of(
                    depositor@,
                    id as int,
                    (limit - found) as nat,
                ) == self@.receipts_of(depositor@, from_id as int, limit as nat),
            decreases counter - id,
        {
            let ghost prev = results@.map_values(|x: Receipt| x@);
            let idx = id as usize;
            let receipt = &self.receipts[idx];
            assert(self@.receipts[id as int] == self.receipts@[idx as int]@);
            if receipt.depositor.same(&depositor) {
                results.push(receipt.copy());
                assert(results@.map_values(|x: Receipt| x@) =~= prev.push(receipt@));
                assert(prev.push(receipt@) + self@.receipts_of(
                    depositor@,
                    id + 1,
                    (limit - (found + 1)) as nat,
                ) =~= prev + (seq![receipt@] + self@.receipts_of(
                    depositor@,
                    id + 1,
                    (limit - (found + 1)) as nat,
                )));
                found = found + 1;
            }
            id = id + 1;
        }
        assert(self@.receipts_of(depositor@, id as int, (limit - found) as nat) =~= Seq::empty());
        assert(results@.map_values(|x: Receipt| x@) =~= results@.map_values(|x: Receipt| x@) + Seq::<
            crate::types::ReceiptView,
        >::empty());
        results
    }

    /// The number of receipts ever issued.
    pub fn get_receipt_counter(&self) -> (r: u64)
        ensures
            r == self@.receipts.len(),
    {
        self.receipts.len() as u64
    }

    /// A queued admin action by id; `None` once executed or cancelled.
    pub fn get_queued_admin_action(&self, action_id: u64) -> (r: Option<QueuedAdminAction>)
        ensures
            opt_action(r) == (if self@.has_action(action_id) {
                self@.actions[action_id as int]
            } else {
                None
            }),
    {
        if action_id >= self.actions.len() as u64 {
            return None;
        }
        match &self.actions[action_id as usize] {
            Some(a) => Some(a.copy()),
            None => None,
        }
    }

    /// The emergency recovery address, if set.
    pub fn get_emergency_recovery_address(&self) -> (r: Option<Addr>)
        ensures
            opt_addr(r) == self@.recovery,
    {
        copy_opt_addr(&self.recovery)
    }

    /// The ledger of the last admin action that counts for inactivity.
    pub fn get_last_admin_action_ledger(&self) -> (r: u32)
        ensures
            r == self@.last_admin_action,
    {
        self.last_admin_action
    }

    /// The inactivity threshold for emergency recovery, in ledgers.
    pub fn get_inactivity_threshold(&self) -> (r: u32)
        ensures
            r == self@.inactivity_threshold,
    {
        self.inactivity_threshold
    }

    /// The per-address deposit cooldown, in ledgers.
    pub fn get_cooldown(&self) -> (r: u32)
        ensures
            r == self@.cooldown,
    {
        self.cooldown
    }

    /// The ledger of `user`'s last deposit, while it is still within the
    /// cooldown window at ledger `sequence`.
    pub fn get_last_deposit_ledger(&self, sequence: u32, user: Addr) -> (r: Option<u32>)
        requires
            self.wf(),
            self@.cooldown > 0 && self@.last_deposit.contains_key(user@) ==> self@.last_deposit[user@]
                <= sequence,
        ensures
            r == self@.last_deposit_ledger(sequence, user@),
    {
        if self.cooldown == 0 {
            return None;
        }
        match self.last_deposit.get(&user) {
            None => None,
            Some(ledger) => {
                if sequence - ledger < self.cooldown {
                    Some(ledger)
                } else {
                    None
                }
            },
        }
    }

    // ── Overflow guards ───────────────────────────────────────────────

    /// Whether `deposit` with these arguments would abort on an arithmetic
    /// overflow (the host must abort instead of calling it).
    pub fn deposit_overflows(
        &self,
        sequence: u32,
        from: &Addr,
        amount: i128,
        token: &Addr,
        reference: &Vec<u8>,
    ) -> (r: bool)
        requires
            self.wf(),
        ensures
            r == self@.deposit_overflows(sequence, from@, amount, token@, reference@),
    {
        if self.cooldown > 0 {
            match self.last_deposit.get(from) {
                Some(last) => {
                    if last > sequence {
                        return true;
                    }
                    if sequence - last < self.cooldown {
                        return false;
                    }
                },
                None => {},
            }
        }
        if reference.len() > MAX_REFERENCE_LEN as usize || amount <= 0 {
            return false;
        }
        let config = match self.registry.get(token) {
            Some(c) => c,
            None => {
                return false;
            },
        };
        if amount > config.limit {
            return false;
        }
        if self.receipts.len() as u64 == u64::MAX {
            return true;
        }
        if config.total_deposited > i128::MAX - amount {
            return true;
        }
        let user_total = match self.user_deposited.get(from) {
            Some(v) => v,
            None => 0,
        };
        user_total > i128::MAX - amount
    }

    /// Whether `request_withdrawal` would abort on an arithmetic overflow.
    pub fn request_withdrawal_overflows(&self, sequence: u32, amount: i128) -> (r: bool)
        ensures
            r == self@.request_withdrawal_overflows(sequence, amount),
    {
        self.admin.is_some() && amount > 0 && (sequence as u64 + self.lock_period as u64
            > u32::MAX as u64 || self.requests.len() as u64 == u64::MAX)
    }

    /// Whether `queue_admin_action` would abort on an arithmetic overflow.
    pub fn queue_admin_action_overflows(&self, sequence: u32, delay_ledgers: u32) -> (r: bool)
        ensures
            r == self@.queue_admin_action_overflows(sequence, delay_ledgers),
    {
        self.admin.is_some() && delay_ledgers >= MIN_TIMELOCK_DELAY && (sequence as u64
            + delay_ledgers as u64 > u32::MAX as u64 || self.actions.len() as u64 == u64::MAX)
    }

    /// Whether `claim_admin` would abort on an arithmetic overflow.
    pub fn claim_admin_overflows(&self) -> (r: bool)
        ensures
            r == self@.claim_admin_overflows(),
    {
        self.recovery.is_some() && self.last_admin_action as u64 + self.inactivity_threshold as u64
            > u32::MAX as u64
    }

    /// Whether `user`'s recorded last deposit lies after ledger `sequence`
    /// while a cooldown is set (`get_last_deposit_ledger` then aborts).
    pub fn last_deposit_after(&self, sequence: u32, user: &Addr) -> (r: bool)
        requires
            self.wf(),
        ensures
            r == (self@.cooldown > 0 && self@.last_deposit.contains_key(user@)
                && self@.last_deposit[user@] > sequence),
    {
        if self.cooldown == 0 {
            return false;
        }
        match self.last_deposit.get(user) {
            Some(last) => last > sequence,
            None => false,
        }
    }

    /// Every state that the bridge reaches satisfies `BridgeView::valid`:
    /// `new` establishes the representation invariant, every operation
    /// keeps it, and it implies `valid`.
    pub proof fn law_reachable_states_valid(&self)
        requires
            self.wf(),
        ensures
            self@.valid(),
    {
    }

    // ── Storage ───────────────────────────────────────────────────────

    /// The bridge's state as plain parts.
    pub fn into_snapshot(self) -> (r: Snapshot)
        requires
            self.wf(),
        ensures
            r.acceptable(),
            r@ == self@,
    {
        let ghost v = self@;
        let r = Snapshot {
            admin: self.admin,
            pending_admin: self.pending_admin,
            token: self.token,
            registry: self.registry.into_entries(),
            user_deposited: self.user_deposited.into_entries(),
            lock_period: self.lock_period,
            requests: self.requests,
            receipts: self.receipts,
            daily_limit: self.daily_limit,
            withdrawals: self.withdrawals,
            cooldown: self.cooldown,
            last_deposit: self.last_deposit.into_entries(),
            actions: self.actions,
            recovery: self.recovery,
            last_admin_action: self.last_admin_action,
            inactivity_threshold: self.inactivity_threshold,
        };
        assert(r@ =~= v);
        r
    }

    /// The bridge whose state the parts describe, if they are acceptable.
    #[verifier::loop_isolation(false)]
    pub fn restore(parts: Snapshot) -> (r: Option<FiatBridge>)
        ensures
            match r {
                Some(b) => b.wf() && b@ == parts@,
                None => !parts.acceptable(),
            },
    {
        let ghost v = parts@;
        let ghost accepted = parts.acceptable();
        let Snapshot {
            admin,
            pending_admin,
            token,
            registry,
            user_deposited,
            lock_period,
            requests,
            receipts,
            daily_limit,
            withdrawals,
            cooldown,
            last_deposit,
            actions,
            recovery,
            last_admin_action,
            inactivity_threshold,
        } = parts;
        let registry = match AddrMap::from_entries(registry) {
            Some(m) => m,
            None => {
                return None;
            },
        };
        let user_deposited = match AddrMap::from_entries(user_deposited) {
            Some(m) => m,
            None => {
                return None;
            },
        };
        let last_deposit = match AddrMap::from_entries(last_deposit) {
            Some(m) => m,
            None => {
                return None;
            },
        };
        if admin.is_none() && actions.len() > 0 {
            return None;
        }
        if admin.is_some() && token.is_none() {
            return None;
        }
        if admin.is_none() && (pending_admin.is_some() || recovery.is_some()) {
            return None;
        }
        let mut i: usize = 0;
        while i < requests.len()
            invariant
                i <= requests@.len(),
                forall|j: int|
                    0 <= j < i && (#[trigger] requests@[j]) is Some ==> requests@[j]->Some_0.amount > 0,
            decreases requests.len() - i,
        {
            match &requests[i] {
                Some(r) => {
                    if r.amount <= 0 {
                        assert(v.requests[i as int] == opt_request(requests@[i as int]));
                        return None;
                    }
                },
                None => {},
            }
            i = i + 1;
        }
        let mut i: usize = 0;
        while i < withdrawals.len()
            invariant
                i <= withdrawals@.len(),
                forall|j: int| 0 <= j < i ==> (#[trigger] withdrawals@[j]).1 > 0,
            decreases withdrawals.len() - i,
        {
            if withdrawals[i].1 <= 0 {
                assert(v.withdrawals[i as int].1 <= 0);
                return None;
            }
            i = i + 1;
        }
        let mut i: usize = 0;
        while i < receipts.len()
            invariant
                i <= receipts@.len(),
                forall|j: int| 0 <= j < i ==> (#[trigger] receipts@[j]).id == j,
            decreases receipts.len() - i,
        {
            if receipts[i].id != i as u64 {
                assert(v.receipts[i as int] == receipts@[i as int]@);
                assert(v.receipts[i as int].id != i as int);
                assert(!v.valid());
                return None;
            }
            i = i + 1;
        }
        proof {
            registry.lemma_entries();
            user_deposited.lemma_entries();
        }
        let mut i: usize = 0;
        while i < registry.len()
            invariant
                i <= registry.pairs().len(),
                forall|j: int|
                    0 <= j < i ==> (#[trigger] registry.pairs()[j]).1.limit > 0
                        && registry.pairs()[j].1.total_deposited >= 0,
            decreases registry.pairs().len() - i,
        {
            let c = registry.value_at(i);
            if c.limit <= 0 || c.total_deposited < 0 {
                assert(v.registry == registry@);
                assert(registry@.contains_key(registry.pairs()[i as int].0));
                return None;
            }
            i = i + 1;
        }
        let mut i: usize = 0;
        while i < user_deposited.len()
            invariant
                i <= user_deposited.pairs().len(),
                forall|j: int| 0 <= j < i ==> (#[trigger] user_deposited.pairs()[j]).1 >= 0,
            decreases user_deposited.pairs().len() - i,
        {
            if user_deposited.value_at(i) < 0 {
                assert(v.user_deposited == user_deposited@);
                assert(user_deposited@.contains_key(user_deposited.pairs()[i as int].0));
                return None;
            }
            i = i + 1;
        }
        let b = FiatBridge {
            admin,
            pending_admin,
            token,
            registry,
            user_deposited,
            lock_period,
            requests,
            receipts,
            daily_limit,
            withdrawals,
            cooldown,
            last_deposit,
            actions,
            recovery,
            last_admin_action,
            inactivity_threshold,
        };
        assert(b@ =~= v);
        proof {
            assert forall|t: Seq<u8>| #[trigger] b@.registry.contains_key(t) implies b@.registry[t].limit
                > 0 && b@.registry[t].total_deposited >= 0 by {
                let j = choose|j: int|
                    0 <= j < b.registry.pairs().len() && (#[trigger] b.registry.pairs()[j]).0 == t;
                assert(b.registry.pairs()[j].1 == b@.registry[t]);
            }
            assert forall|u: Seq<u8>| #[trigger] b@.user_deposited.contains_key(u) implies b@.user_deposited[u]
                >= 0 by {
                let j = choose|j: int|
                    0 <= j < b.user_deposited.pairs().len()
                        && (#[trigger] b.user_deposited.pairs()[j]).0 == u;
                assert(b.user_deposited.pairs()[j].1 == b@.user_deposited[u]);
            }
            assert forall|j: int| 0 <= j < b@.receipts.len() implies #[trigger] b@.receipts[j].id == j by {
                assert(b@.receipts[j] == b.receipts@[j]@);
            }
        }
        Some(b)
    }
}

} // verus!
