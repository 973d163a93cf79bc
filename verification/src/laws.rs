use vstd::prelude::*;
use crate::effects::{EventView, TransferView};
use crate::model::{
    BridgeView, Commit, Operation, Step, lemma_recent, lemma_window_total_prefix, recent, refuse,
    window_total,
};
use crate::types::{
    DEFAULT_INACTIVITY_THRESHOLD, Error, MAX_REFERENCE_LEN, MIN_TIMELOCK_DELAY, QueuedAdminActionView,
    ReceiptView, TokenConfig, WINDOW_LEDGERS, WithdrawRequestView,
};

verus! {

/// A successful deposit issues the next receipt id, records the receipt,
/// pulls exactly `amount` from the depositor, and raises both the token's
/// total and the depositor's total by `amount` (so the token's total grows
/// strictly); no other token's or user's total changes.
pub proof fn law_deposit_accounting(
    s: BridgeView,
    at: u32,
    from: Seq<u8>,
    amount: i128,
    token: Seq<u8>,
    reference: Seq<u8>,
)
    requires
        s.valid(),
        s.deposit(at, from, amount, token, reference).is_ok(),
        !s.deposit_overflows(at, from, amount, token, reference),
    ensures
        ({
            let c = s.deposit(at, from, amount, token, reference).outcome->Ok_0;
            let post = c.state;
            &&& c.value == s.receipts.len()
            &&& post.receipts.len() == s.receipts.len() + 1
            &&& post.receipts.drop_last() == s.receipts
            &&& post.receipts.last() == (ReceiptView {
                id: c.value,
                depositor: from,
                token,
                amount,
                ledger: at,
                reference,
                refunded: false,
            })
            &&& post.registry[token].total_deposited == s.registry[token].total_deposited + amount
            &&& post.registry[token].total_deposited > s.registry[token].total_deposited
            &&& post.registry[token].limit == s.registry[token].limit
            &&& post.user_total(from) == s.user_total(from) + amount
            &&& forall|u: Seq<u8>| u != from ==> post.user_total(u) == s.user_total(u)
            &&& forall|t: Seq<u8>| t != token ==> post.registry.contains_key(t) == s.registry.contains_key(t) && (s.registry.contains_key(t) ==> post.registry[t] == s.registry[t])
            &&& c.transfers == seq![TransferView::In { token, from, amount }]
        }),
{
    let c = s.deposit(at, from, amount, token, reference).outcome->Ok_0;
    assert(c.state.receipts.drop_last() =~= s.receipts);
}

/// Once the cooldown, reference and whitelist checks pass, a deposit is
/// refused with `ZeroAmount` exactly when the amount is not positive, with
/// `ExceedsLimit` exactly when it is above the token's limit, and accepted
/// otherwise.
pub proof fn law_deposit_amount_checks(
    s: BridgeView,
    at: u32,
    from: Seq<u8>,
    amount: i128,
    token: Seq<u8>,
    reference: Seq<u8>,
)
    requires
        !s.cooldown_blocks(at, from),
        reference.len() <= MAX_REFERENCE_LEN,
        s.registry.contains_key(token),
    ensures
        amount <= 0 ==> s.deposit(at, from, amount, token, reference).outcome == Err::<
            Commit<u64>,
            Error,
        >(Error::ZeroAmount),
        amount > s.registry[token].limit && amount > 0 ==> s.deposit(
            at,
            from,
            amount,
            token,
            reference,
        ).outcome == Err::<Commit<u64>, Error>(Error::ExceedsLimit),
        0 < amount <= s.registry[token].limit ==> s.deposit(
            at,
            from,
            amount,
            token,
            reference,
        ).is_ok(),
{
}

/// A withdrawal on an initialised bridge succeeds exactly when
/// 0 < amount <= balance and the daily cap allows it; it then pays out
/// exactly `amount` of `token` to `to`, demands the authorisation of `to`
/// and of the admin, and changes nothing but the payout log.
pub proof fn law_withdraw_within_balance(
    s: BridgeView,
    at: u32,
    to: Seq<u8>,
    amount: i128,
    token: Seq<u8>,
    balance: i128,
)
    requires
        s.admin is Some,
    ensures
        s.withdraw(at, to, amount, token, balance).is_ok() <==> (0 < amount <= balance
            && !s.cap_blocks(at, amount)),
        amount <= 0 ==> s.withdraw(at, to, amount, token, balance).outcome == Err::<Commit<()>, Error>(
            Error::ZeroAmount,
        ),
        0 < amount && amount > balance ==> s.withdraw(at, to, amount, token, balance).outcome
            == Err::<Commit<()>, Error>(Error::InsufficientFunds),
        s.withdraw(at, to, amount, token, balance).is_ok() ==> ({
            let step = s.withdraw(at, to, amount, token, balance);
            let c = step.outcome->Ok_0;
            &&& c.state == (BridgeView { withdrawals: s.logged(at, amount), ..s })
            &&& c.transfers == seq![TransferView::Out { token, to, amount }]
            &&& step.auths == seq![to, s.admin->Some_0]
        }),
{
}

/// The daily cap: with a positive cap, a payout that would take the
/// payouts of the last `WINDOW_LEDGERS` ledgers above the cap is refused
/// with `ExceedsLimit` and moves nothing; a payout that is made counts
/// against the cap for the next `WINDOW_LEDGERS` ledgers and no longer
/// afterwards; with no cap, or a cap of 0, the cap never refuses.
pub proof fn law_daily_cap(
    s: BridgeView,
    at: u32,
    to: Seq<u8>,
    amount: i128,
    token: Seq<u8>,
    balance: i128,
    later: u32,
)
    requires
        s.valid(),
        s.admin is Some,
        0 < amount <= balance,
    ensures
        (s.daily_limit is None || s.daily_limit == Some(0i128)) ==> !s.cap_blocks(at, amount),
        s.daily_limit matches Some(cap) && cap > 0 && window_total(s.withdrawals, at) + amount > cap
            ==> s.withdraw(at, to, amount, token, balance).outcome == Err::<Commit<()>, Error>(
            Error::ExceedsLimit,
        ),
        s.withdraw(at, to, amount, token, balance).is_ok() ==> ({
            let t = s.withdraw(at, to, amount, token, balance).post(s);
            &&& window_total(t.withdrawals, at) == window_total(s.withdrawals, at) + amount
            &&& at <= later < at + WINDOW_LEDGERS ==> window_total(t.withdrawals, later) >= amount
            &&& later >= at + WINDOW_LEDGERS ==> window_total(t.withdrawals, later) == window_total(
                recent(s.withdrawals, at),
                later,
            )
        }),
{
    lemma_recent(s.withdrawals, at);
    if s.withdraw(at, to, amount, token, balance).is_ok() {
        let r = recent(s.withdrawals, at);
        let t = s.withdraw(at, to, amount, token, balance).post(s);
        assert(t.withdrawals.drop_last() =~= r);
        lemma_window_total_prefix(r, later, r.len() as int);
        assert(r.take(r.len() as int) =~= r);
    }
}

/// Taking a token off the whitelist blocks further deposits of it, while
/// withdrawals of it behave exactly as before (balances can be drained).
pub proof fn law_removed_token(
    s: BridgeView,
    token: Seq<u8>,
    at: u32,
    from: Seq<u8>,
    amount: i128,
    reference: Seq<u8>,
    to: Seq<u8>,
    out: i128,
    balance: i128,
)
    requires
        s.remove_token(token).is_ok(),
        !s.cooldown_blocks(at, from),
        reference.len() <= MAX_REFERENCE_LEN,
        amount > 0,
    ensures
        ({
            let s1 = s.remove_token(token).post(s);
            &&& !s1.registry.contains_key(token)
            &&& s1.deposit(at, from, amount, token, reference).outcome == Err::<
                Commit<u64>,
                Error,
            >(Error::TokenNotWhitelisted)
            &&& s1.withdraw(at, to, out, token, balance).outcome matches Ok(c1) ==> s.withdraw(
                at,
                to,
                out,
                token,
                balance,
            ).outcome matches Ok(c0) && c0.transfers == c1.transfers
            &&& s1.withdraw(at, to, out, token, balance).is_ok() == s.withdraw(
                at,
                to,
                out,
                token,
                balance,
            ).is_ok()
        }),
{
}

/// Nominating an admin keeps the current admin active and records the
/// nominee; the nominee (and only the nominee) can then accept, which makes
/// it the admin and clears the nomination. Anyone else is refused with
/// `Unauthorized` before any authorisation is demanded.
pub proof fn law_admin_handover(s: BridgeView, nominee: Seq<u8>, other: Seq<u8>)
    requires
        s.admin is Some,
        other != nominee,
    ensures
        ({
            let s1 = s.transfer_admin(nominee).post(s);
            let accept = s1.accept_admin(nominee);
            let s2 = accept.post(s1);
            &&& s.transfer_admin(nominee).is_ok()
            &&& s1.admin == s.admin
            &&& s1.pending_admin == Some(nominee)
            &&& accept.is_ok()
            &&& accept.auths == seq![nominee]
            &&& s2.admin == Some(nominee)
            &&& s2.pending_admin is None
            &&& s1.accept_admin(other) == refuse::<()>(seq![], Error::Unauthorized)
        }),
{
}

/// Cancelling a nomination clears it and leaves the admin unchanged; the
/// former nominee can no longer accept.
pub proof fn law_cancel_handover(s: BridgeView, nominee: Seq<u8>)
    requires
        s.admin is Some,
    ensures
        ({
            let s1 = s.transfer_admin(nominee).post(s);
            let cancel = s1.cancel_admin_transfer();
            let s2 = cancel.post(s1);
            &&& cancel.is_ok()
            &&& s2.pending_admin is None
            &&& s2.admin == s.admin
            &&& s2.accept_admin(nominee).outcome == Err::<Commit<()>, Error>(
                Error::NoPendingAdmin,
            )
        }),
{
}

/// A withdrawal request records its payee, token and amount and unlocks
/// `lock_period` ledgers after it was made: before that it cannot be
/// executed; once cancelled it can never be executed.
pub proof fn law_request_lifecycle(
    s: BridgeView,
    at: u32,
    to: Seq<u8>,
    amount: i128,
    token: Seq<u8>,
    later: u32,
    partial: Option<i128>,
    balance: i128,
)
    requires
        s.admin is Some,
        amount > 0,
        !s.request_withdrawal_overflows(at, amount),
    ensures
        ({
            let c = s.request_withdrawal(at, to, amount, token).outcome->Ok_0;
            let id = c.value;
            let s1 = c.state;
            let s2 = s1.cancel_withdrawal(id).post(s1);
            &&& s.request_withdrawal(at, to, amount, token).is_ok()
            &&& id == s.requests.len()
            &&& s1.has_request(id)
            &&& s1.requests[id as int] == Some(
                WithdrawRequestView { to, token, amount, unlock_ledger: (at + s.lock_period) as u32 },
            )
            &&& later < at + s.lock_period ==> s1.execute_withdrawal(
                later,
                id,
                partial,
                balance,
            ).outcome == Err::<Commit<()>, Error>(Error::WithdrawalLocked)
            &&& s1.cancel_withdrawal(id).is_ok()
            &&& !s2.has_request(id)
            &&& s2.execute_withdrawal(later, id, partial, balance).outcome == Err::<
                Commit<()>,
                Error,
            >(Error::RequestNotFound)
        }),
{
}

/// Executing a matured request in full pays its whole amount to its payee
/// and removes it, so it can never be paid again.
pub proof fn law_full_withdrawal(
    s: BridgeView,
    at: u32,
    id: u64,
    balance: i128,
    at2: u32,
    partial: Option<i128>,
    balance2: i128,
)
    requires
        s.has_request(id),
        at >= s.requests[id as int]->Some_0.unlock_ledger,
        s.requests[id as int]->Some_0.amount <= balance,
        !s.cap_blocks(at, s.requests[id as int]->Some_0.amount),
    ensures
        ({
            let r = s.requests[id as int]->Some_0;
            let step = s.execute_withdrawal(at, id, None, balance);
            let s1 = step.post(s);
            &&& step.is_ok()
            &&& step.outcome->Ok_0.transfers == seq![
                TransferView::Out { token: r.token, to: r.to, amount: r.amount },
            ]
            &&& !s1.has_request(id)
            &&& s1.execute_withdrawal(at2, id, partial, balance2).outcome == Err::<
                Commit<()>,
                Error,
            >(Error::RequestNotFound)
        }),
{
}

/// Two partial executions that together cover a request pay out exactly the
/// requested amount in total, and the request is gone afterwards; after the
/// first one the request holds what remains.
pub proof fn law_partial_withdrawals(
    s: BridgeView,
    at: u32,
    id: u64,
    part: i128,
    balance1: i128,
    balance2: i128,
)
    requires
        s.valid(),
        s.has_request(id),
        at >= s.requests[id as int]->Some_0.unlock_ledger,
        !s.cap_blocks(at, s.requests[id as int]->Some_0.amount),
        0 < part < s.requests[id as int]->Some_0.amount,
        part <= balance1,
        s.requests[id as int]->Some_0.amount - part <= balance2,
    ensures
        ({
            let r = s.requests[id as int]->Some_0;
            let rest = (r.amount - part) as i128;
            let first = s.execute_withdrawal(at, id, Some(part), balance1);
            let s1 = first.post(s);
            let second = s1.execute_withdrawal(at, id, Some(rest), balance2);
            let s2 = second.post(s1);
            &&& first.is_ok()
            &&& s1.has_request(id)
            &&& s1.requests[id as int] == Some(WithdrawRequestView { amount: rest, ..r })
            &&& second.is_ok()
            &&& !s2.has_request(id)
            &&& first.outcome->Ok_0.transfers == seq![
                TransferView::Out { token: r.token, to: r.to, amount: part },
            ]
            &&& second.outcome->Ok_0.transfers == seq![
                TransferView::Out { token: r.token, to: r.to, amount: rest },
            ]
            &&& part + rest == r.amount
        }),
{
    let r = s.requests[id as int]->Some_0;
    let s1 = s.execute_withdrawal(at, id, Some(part), balance1).post(s);
    lemma_recent(s.withdrawals, at);
    assert(s1.withdrawals.drop_last() =~= recent(s.withdrawals, at));
    assert(window_total(s1.withdrawals, at) == window_total(s.withdrawals, at) + part);
}

/// A receipt is refunded at most once: a successful refund pays its amount
/// back to its depositor, in the token it was deposited in, and marks it;
/// any later refund of it is refused with `AlreadyRefunded`.
pub proof fn law_refund_at_most_once(s: BridgeView, at: u32, id: u64, at2: u32)
    requires
        s.refund_deposit(at, id).is_ok(),
    ensures
        ({
            let step = s.refund_deposit(at, id);
            let s1 = step.post(s);
            let rc = s.receipts[id as int];
            &&& !rc.refunded
            &&& s1.receipts[id as int] == (ReceiptView { refunded: true, ..rc })
            &&& s1.receipts.len() == s.receipts.len()
            &&& step.outcome->Ok_0.transfers == seq![
                TransferView::Out { token: rc.token, to: rc.depositor, amount: rc.amount },
            ]
            &&& s1.refund_deposit(at2, id).outcome == Err::<Commit<()>, Error>(
                Error::AlreadyRefunded,
            )
        }),
{
}

/// Admin actions are timelocked: a delay below `MIN_TIMELOCK_DELAY` is
/// refused; a queued action cannot run until its target ledger has passed,
/// runs afterwards (counting as admin activity), and is gone once run or
/// cancelled.
pub proof fn law_admin_timelock(
    s: BridgeView,
    at: u32,
    action_type: Seq<u8>,
    payload: Seq<u8>,
    delay: u32,
    later: u32,
)
    requires
        s.admin is Some,
        !s.queue_admin_action_overflows(at, delay),
    ensures
        delay < MIN_TIMELOCK_DELAY ==> s.queue_admin_action(
            at,
            action_type,
            payload,
            delay,
        ).outcome == Err::<Commit<u64>, Error>(Error::ActionNotReady),
        delay >= MIN_TIMELOCK_DELAY ==> ({
            let c = s.queue_admin_action(at, action_type, payload, delay).outcome->Ok_0;
            let id = c.value;
            let s1 = c.state;
            let exec = s1.execute_admin_action(later, id);
            &&& s.queue_admin_action(at, action_type, payload, delay).is_ok()
            &&& id == s.actions.len()
            &&& s1.actions[id as int] == Some(
                QueuedAdminActionView {
                    action_type,
                    payload,
                    target_ledger: (at + delay) as u32,
                    queued_ledger: at,
                },
            )
            &&& later <= at + delay ==> exec.outcome == Err::<Commit<()>, Error>(
                Error::ActionNotReady,
            )
            &&& later > at + delay ==> exec.is_ok() && !exec.post(s1).has_action(id)
                && exec.post(s1).last_admin_action == later
            &&& s1.cancel_admin_action(id).is_ok()
            &&& !s1.cancel_admin_action(id).post(s1).has_action(id)
        }),
{
}

/// The recovery address can claim the admin role exactly when it is set
/// and the current ledger is past the last admin action by more than the
/// inactivity threshold; the claim makes it the admin and clears it.
pub proof fn law_claim_admin(s: BridgeView, at: u32)
    requires
        !s.claim_admin_overflows(),
    ensures
        s.claim_admin(at).is_ok() <==> (s.recovery is Some && at > s.last_admin_action
            + s.inactivity_threshold),
        s.recovery is None ==> s.claim_admin(at).outcome == Err::<Commit<()>, Error>(
            Error::NoEmergencyRecoveryAddress,
        ),
        s.claim_admin(at).is_ok() ==> s.claim_admin(at).post(s).admin == s.recovery
            && s.claim_admin(at).post(s).recovery is None,
{
}

/// Setting the recovery address counts as admin activity: the recovery
/// address can claim the role only once more than the threshold has passed
/// since then.
pub proof fn law_recovery_waits(s: BridgeView, at: u32, recovery: Seq<u8>, later: u32)
    requires
        s.admin is Some,
        at + s.inactivity_threshold <= u32::MAX,
    ensures
        ({
            let s1 = s.set_emergency_recovery_address(at, recovery).post(s);
            &&& s1.last_admin_action == at
            &&& later <= at + s.inactivity_threshold ==> s1.claim_admin(later).outcome == Err::<
                Commit<()>,
                Error,
            >(Error::InactivityThresholdNotReached)
            &&& later > at + s.inactivity_threshold ==> s1.claim_admin(later).is_ok()
                && s1.claim_admin(later).post(s1).admin == Some(recovery)
        }),
{
}

/// The deposit cooldown is per address: after a deposit by `a` while a
/// cooldown is set, `a` is blocked until the cooldown has passed, and what
/// blocks any other address is unchanged.
pub proof fn law_cooldown_per_address(
    s: BridgeView,
    at: u32,
    a: Seq<u8>,
    amount: i128,
    token: Seq<u8>,
    reference: Seq<u8>,
    b: Seq<u8>,
    later: u32,
)
    requires
        s.cooldown > 0,
        s.deposit(at, a, amount, token, reference).is_ok(),
        at <= later,
        a != b,
    ensures
        ({
            let s1 = s.deposit(at, a, amount, token, reference).post(s);
            &&& s1.cooldown_blocks(later, a) <==> later - at < s.cooldown
            &&& s1.last_deposit_ledger(later, a) == (if later - at < s.cooldown {
                Some(at)
            } else {
                None
            })
            &&& s1.cooldown_blocks(later, b) == s.cooldown_blocks(later, b)
        }),
{
}

/// `init` succeeds at most once.
pub proof fn law_init_once(
    s: BridgeView,
    at: u32,
    admin: Seq<u8>,
    token: Seq<u8>,
    limit: i128,
    at2: u32,
    admin2: Seq<u8>,
    token2: Seq<u8>,
    limit2: i128,
)
    requires
        s.init(at, admin, token, limit).is_ok(),
    ensures
        s.init(at, admin, token, limit).post(s).init(at2, admin2, token2, limit2).outcome == Err::<
            Commit<()>,
            Error,
        >(Error::AlreadyInitialized),
{
}

/// The receipts listed for a depositor are all that depositor's, at most
/// `limit` of them, each with an id at or after the starting id, in
/// increasing id order; and none is skipped: every receipt of the depositor
/// (refunded or not) from the starting id on is listed, up to the last one
/// listed once `limit` of them are.
pub proof fn law_receipts_of(s: BridgeView, depositor: Seq<u8>, from: int, limit: nat)
    requires
        s.valid(),
        from >= 0,
    ensures
        ({
            let r = s.receipts_of(depositor, from, limit);
            &&& r.len() <= limit
            &&& forall|i: int| 0 <= i < r.len() ==> (#[trigger] r[i]).depositor == depositor
            &&& forall|i: int| 0 <= i < r.len() ==> from <= (#[trigger] r[i]).id < s.receipts.len()
            &&& forall|i: int| 0 <= i < r.len() ==> s.receipts[(#[trigger] r[i]).id as int] == r[i]
            &&& forall|i: int, j: int| 0 <= i < j < r.len() ==> (#[trigger] r[i]).id < (#[trigger] r[j]).id
            &&& forall|i: int|
                from <= i < s.receipts.len() && (#[trigger] s.receipts[i]).depositor == depositor && (
                r.len() < limit || (r.len() > 0 && i <= r.last().id)) ==> exists|k: int|
                    0 <= k < r.len() && #[trigger] r[k] == s.receipts[i]
        }),
    decreases s.receipts.len() - from, limit,
{
    if from < s.receipts.len() && limit > 0 {
        let rest = if s.receipts[from].depositor == depositor {
            (limit - 1) as nat
        } else {
            limit
        };
        law_receipts_of(s, depositor, from + 1, rest);
        let r = s.receipts_of(depositor, from, limit);
        let t = s.receipts_of(depositor, from + 1, rest);
        if s.receipts[from].depositor == depositor {
            assert(r == seq![s.receipts[from]] + t);
            assert forall|i: int| 0 <= i < r.len() implies from <= (#[trigger] r[i]).id < s.receipts.len()
                && s.receipts[r[i].id as int] == r[i] && r[i].depositor == depositor by {
                if i > 0 {
                    assert(r[i] == t[i - 1]);
                }
            }
            assert forall|i: int, j: int| 0 <= i < j < r.len() implies (#[trigger] r[i]).id < (#[trigger] r[j]).id by {
                assert(r[j] == t[j - 1]);
                if i > 0 {
                    assert(r[i] == t[i - 1]);
                }
            }
            assert forall|i: int|
                from <= i < s.receipts.len() && (#[trigger] s.receipts[i]).depositor == depositor && (
                r.len() < limit || (r.len() > 0 && i <= r.last().id)) implies exists|k: int|
                    0 <= k < r.len() && #[trigger] r[k] == s.receipts[i] by {
                if i == from {
                    assert(r[0] == s.receipts[i]);
                } else {
                    if t.len() > 0 {
                        assert(r.last() == t.last());
                    }
                    let k = choose|k: int| 0 <= k < t.len() && #[trigger] t[k] == s.receipts[i];
                    assert(r[k + 1] == t[k]);
                }
            }
        } else {
            assert(r == t);
        }
    }
}

/// Configuration is admin-only: on a bridge without an admin each of these
/// operations fails with `NotInitialized` and demands nothing; on an
/// initialised bridge each one that succeeds has demanded exactly the
/// admin's authorisation.
pub proof fn law_admin_gate(
    s: BridgeView,
    at: u32,
    ledgers: u32,
    limit: i128,
    who: Seq<u8>,
    token: Seq<u8>,
    id: u64,
)
    ensures
        s.admin is None ==> {
            &&& s.set_lock_period(ledgers) == refuse::<()>(seq![], Error::NotInitialized)
            &&& s.set_cooldown(ledgers) == refuse::<()>(seq![], Error::NotInitialized)
            &&& s.set_daily_limit(limit) == refuse::<()>(seq![], Error::NotInitialized)
            &&& s.transfer_admin(who) == refuse::<()>(seq![], Error::NotInitialized)
            &&& s.set_emergency_recovery_address(at, who) == refuse::<()>(
                seq![],
                Error::NotInitialized,
            )
            &&& s.set_inactivity_threshold(at, ledgers) == refuse::<()>(
                seq![],
                Error::NotInitialized,
            )
            &&& s.remove_token(token) == refuse::<()>(seq![], Error::NotInitialized)
            &&& s.cancel_withdrawal(id) == refuse::<()>(seq![], Error::NotInitialized)
            &&& s.refund_deposit(at, id) == refuse::<()>(seq![], Error::NotInitialized)
            &&& limit > 0 ==> s.add_token(token, limit) == refuse::<()>(
                seq![],
                Error::NotInitialized,
            )
        },
        s.admin is Some ==> {
            let auths = seq![s.admin->Some_0];
            &&& s.set_lock_period(ledgers).is_ok() && s.set_lock_period(ledgers).auths == auths
            &&& s.set_cooldown(ledgers).is_ok() && s.set_cooldown(ledgers).auths == auths
            &&& s.set_daily_limit(limit).auths == auths
            &&& s.transfer_admin(who).is_ok() && s.transfer_admin(who).auths == auths
            &&& s.set_emergency_recovery_address(at, who).auths == auths
            &&& s.set_inactivity_threshold(at, ledgers).auths == auths
            &&& s.remove_token(token).auths == auths
            &&& s.cancel_withdrawal(id).auths == auths
            &&& s.refund_deposit(at, id).auths == auths
            &&& s.cancel_admin_action(id).auths == auths
            &&& s.execute_admin_action(at, id).auths == auths
            &&& limit > 0 ==> s.add_token(token, limit).auths == auths
        },
{
}

/// No operation rewrites history: once initialised the bridge stays
/// initialised; receipts are never removed, and a receipt never changes
/// except from unrefunded to refunded; request and action ids are never
/// reused, and a request or action that is gone stays gone.
pub proof fn law_history_preserved(s: BridgeView, at: u32, op: Operation)
    ensures
        ({
            let t = s.after(at, op);
            &&& s.admin is Some ==> t.admin is Some
            &&& t.receipts.len() >= s.receipts.len()
            &&& forall|i: int|
                0 <= i < s.receipts.len() ==> t.receipts[i] == s.receipts[i] || (
                !s.receipts[i].refunded && t.receipts[i] == (ReceiptView {
                    refunded: true,
                    ..s.receipts[i]
                }))
            &&& t.requests.len() >= s.requests.len()
            &&& forall|i: int|
                0 <= i < s.requests.len() && s.requests[i] is None ==> t.requests[i] is None
            &&& t.actions.len() >= s.actions.len()
            &&& forall|i: int|
                0 <= i < s.actions.len() && s.actions[i] is None ==> t.actions[i] is None
        }),
{
}

/// Totals deposited change only by deposits: a successful deposit raises
/// its token's total by exactly its amount (so strictly) and no other
/// total; a failed deposit changes nothing; `set_limit` keeps every total;
/// and every operation other than `init`, `deposit`, `set_limit`,
/// `add_token` and `remove_token` (among them `withdraw`,
/// `execute_withdrawal` and `refund_deposit`) leaves the whitelist and all
/// totals unchanged.
pub proof fn law_total_deposited(s: BridgeView, at: u32, op: Operation)
    requires
        s.valid(),
    ensures
        ({
            let t = s.after(at, op);
            match op {
                Operation::Deposit { from, amount, token, reference } => {
                    &&& !s.deposit(at, from, amount, token, reference).is_ok() ==> t == s
                    &&& s.deposit(at, from, amount, token, reference).is_ok() && !s.deposit_overflows(
                        at,
                        from,
                        amount,
                        token,
                        reference,
                    ) ==> {
                        &&& t.registry[token].total_deposited == s.registry[token].total_deposited
                            + amount
                        &&& t.registry[token].total_deposited > s.registry[token].total_deposited
                        &&& forall|k: Seq<u8>|
                            k != token ==> t.registry.contains_key(k) == s.registry.contains_key(k)
                                && (s.registry.contains_key(k) ==> t.registry[k] == s.registry[k])
                    }
                },
                Operation::SetLimit { token, new_limit } => forall|k: Seq<u8>| #[trigger]
                    s.registry.contains_key(k) ==> t.registry.contains_key(k)
                        && t.registry[k].total_deposited == s.registry[k].total_deposited,
                Operation::Init { .. } => true,
                Operation::AddToken { .. } => true,
                Operation::RemoveToken { .. } => true,
                _ => t.registry == s.registry,
            }
        }),
{
}

/// A deposit's checks come in a fixed order, each refusing exactly when it
/// fails and all before it pass: the cooldown (`CooldownActive`, exactly
/// while a positive cooldown has not passed since the depositor's own last
/// deposit), the reference length (`ReferenceTooLong`), the amount
/// (`ZeroAmount`), the whitelist (`TokenNotWhitelisted`) and the limit
/// (`ExceedsLimit`); when all pass the deposit succeeds. What is recorded
/// for any other address never decides whether the cooldown refuses.
pub proof fn law_deposit_checks(
    s: BridgeView,
    at: u32,
    from: Seq<u8>,
    amount: i128,
    token: Seq<u8>,
    reference: Seq<u8>,
)
    requires
        s.cooldown > 0 && s.last_deposit.contains_key(from) ==> s.last_deposit[from] <= at,
    ensures
        ({
            let o = s.deposit(at, from, amount, token, reference).outcome;
            let blocked = s.cooldown > 0 && s.last_deposit.contains_key(from) && at
                - s.last_deposit[from] < s.cooldown;
            let long = reference.len() > MAX_REFERENCE_LEN;
            let listed = s.registry.contains_key(token);
            &&& (o == Err::<Commit<u64>, Error>(Error::CooldownActive)) <==> blocked
            &&& !blocked && long ==> o == Err::<Commit<u64>, Error>(Error::ReferenceTooLong)
            &&& !blocked && !long && amount <= 0 ==> o == Err::<Commit<u64>, Error>(
                Error::ZeroAmount,
            )
            &&& !blocked && !long && amount > 0 && !listed ==> o == Err::<Commit<u64>, Error>(
                Error::TokenNotWhitelisted,
            )
            &&& !blocked && !long && amount > 0 && listed && amount > s.registry[token].limit ==> o
                == Err::<Commit<u64>, Error>(Error::ExceedsLimit)
            &&& !blocked && !long && amount > 0 && listed && amount <= s.registry[token].limit
                ==> o is Ok
            &&& forall|b: Seq<u8>, x: u32|
                b != from ==> (#[trigger] BridgeView {
                    last_deposit: s.last_deposit.insert(b, x),
                    ..s
                }.deposit(at, from, amount, token, reference).outcome == Err::<Commit<u64>, Error>(
                    Error::CooldownActive,
                )) == blocked
        }),
{
}

/// The amount a step pays out: its single outgoing transfer, if it succeeds
/// with one.
pub open spec fn paid_out<T>(step: Step<T>) -> int {
    match step.outcome {
        Ok(c) => if c.transfers.len() == 1 && c.transfers[0] is Out {
            c.transfers[0]->Out_amount as int
        } else {
            0
        },
        Err(_) => 0,
    }
}

/// The transfers a step asks for (none if it fails).
pub open spec fn moved<T>(step: Step<T>) -> Seq<TransferView> {
    match step.outcome {
        Ok(c) => c.transfers,
        Err(_) => Seq::empty(),
    }
}

/// Runs executions of request `id`, each given as (ledger, partial amount,
/// balance), from `s`: the resulting state, the total paid out, and the
/// transfers made.
pub open spec fn executions(s: BridgeView, id: u64, steps: Seq<(u32, Option<i128>, i128)>) -> (
    BridgeView,
    int,
    Seq<TransferView>,
)
    decreases steps.len(),
{
    if steps.len() == 0 {
        (s, 0, Seq::empty())
    } else {
        let (t, paid, moves) = executions(s, id, steps.drop_last());
        let (at, part, balance) = steps.last();
        let step = t.execute_withdrawal(at, id, part, balance);
        (step.post(t), paid + paid_out(step), moves + moved(step))
    }
}

/// Whatever executions of one request are attempted, in any number, the
/// payouts add up to at most its amount and all go to its payee in its token;
/// while they add up to less the request stays pending with what remains,
/// and once they reach its amount it is gone and no further execution pays.
pub proof fn law_request_payouts(s: BridgeView, id: u64, steps: Seq<(u32, Option<i128>, i128)>)
    requires
        s.valid(),
    ensures
        ({
            let (t, paid, moves) = executions(s, id, steps);
            let r = s.requests[id as int]->Some_0;
            &&& !s.has_request(id) ==> paid == 0 && !t.has_request(id) && moves.len() == 0
            &&& s.has_request(id) ==> {
                &&& 0 <= paid <= r.amount
                &&& forall|k: int|
                    0 <= k < moves.len() ==> (#[trigger] moves[k]) is Out && moves[k]->Out_token
                        == r.token && moves[k]->Out_to == r.to
                &&& paid < r.amount ==> t.has_request(id) && t.requests[id as int] == Some(
                    WithdrawRequestView { amount: (r.amount - paid) as i128, ..r },
                )
                &&& paid == r.amount ==> !t.has_request(id)
            }
        }),
    decreases steps.len(),
{
    if steps.len() > 0 {
        law_request_payouts(s, id, steps.drop_last());
        let (t, paid, moves) = executions(s, id, steps.drop_last());
        let (at, part, balance) = steps.last();
        let step = t.execute_withdrawal(at, id, part, balance);
        let all = moves + moved(step);
        if s.has_request(id) {
            let r = s.requests[id as int]->Some_0;
            assert forall|k: int| 0 <= k < all.len() implies (#[trigger] all[k]) is Out
                && all[k]->Out_token == r.token && all[k]->Out_to == r.to by {
                if k < moves.len() {
                    assert(all[k] == moves[k]);
                }
            }
        }
    }
}

/// Runs `ops`, each with the ledger it runs at, from `s`.
pub open spec fn run(s: BridgeView, ops: Seq<(u32, Operation)>) -> BridgeView
    decreases ops.len(),
{
    if ops.len() == 0 {
        s
    } else {
        run(s, ops.drop_last()).after(ops.last().0, ops.last().1)
    }
}

/// Whether `op` is a deposit that succeeds on `s` at ledger `at`.
pub open spec fn deposit_succeeds(s: BridgeView, at: u32, op: Operation) -> bool {
    match op {
        Operation::Deposit { from, amount, token, reference } => s.deposit(
            at,
            from,
            amount,
            token,
            reference,
        ).is_ok(),
        _ => false,
    }
}

/// The number of deposits among `ops` that succeed when run from `s`.
pub open spec fn deposits_made(s: BridgeView, ops: Seq<(u32, Operation)>) -> nat
    decreases ops.len(),
{
    if ops.len() == 0 {
        0
    } else {
        deposits_made(s, ops.drop_last()) + if deposit_succeeds(
            run(s, ops.drop_last()),
            ops.last().0,
            ops.last().1,
        ) {
            1nat
        } else {
            0nat
        }
    }
}

/// From a freshly deployed bridge, whatever operations run, the receipt
/// counter equals the number of successful deposits, and receipt `i`
/// (within the `u64` id range) has id `i`.
pub proof fn law_receipt_count(ops: Seq<(u32, Operation)>)
    ensures
        ({
            let t = run(BridgeView::empty(), ops);
            &&& t.receipts.len() == deposits_made(BridgeView::empty(), ops)
            &&& forall|i: int|
                0 <= i < t.receipts.len() && i <= u64::MAX ==> #[trigger] t.receipts[i].id == i
        }),
    decreases ops.len(),
{
    if ops.len() > 0 {
        law_receipt_count(ops.drop_last());
        let s = run(BridgeView::empty(), ops.drop_last());
        let (at, op) = ops.last();
        let t = s.after(at, op);
        law_history_preserved(s, at, op);
        assert(t.receipts.len() == s.receipts.len() + if deposit_succeeds(s, at, op) {
            1int
        } else {
            0int
        });
        assert forall|i: int| 0 <= i < t.receipts.len() && i <= u64::MAX implies #[trigger] t.receipts[i].id
            == i by {
            if i < s.receipts.len() {
                assert(s.receipts[i].id == i);
            }
        }
    }
}

/// The admin changes only by a successful `init` (on a bridge without one,
/// to the given admin), `accept_admin` (to the nominee) or `claim_admin`
/// (to the recovery address); on a valid bridge without an admin only
/// `init` can set one.
pub proof fn law_admin_changes(s: BridgeView, at: u32, op: Operation)
    ensures
        ({
            let t = s.after(at, op);
            &&& t.admin != s.admin ==> match op {
                Operation::Init { admin, .. } => s.admin is None && t.admin == Some(admin),
                Operation::AcceptAdmin { claimant } => s.pending_admin == Some(claimant)
                    && t.admin == Some(claimant),
                Operation::ClaimAdmin => s.recovery is Some && t.admin == s.recovery,
                _ => false,
            }
            &&& s.valid() && s.admin is None && t.admin is Some ==> op is Init
        }),
{
}

/// On an initialised bridge a receipt that exists and has not been refunded
/// can always be refunded, whatever the whitelist holds (also once its
/// token has been removed): the refund pays the receipt's amount, in its
/// token, back to its depositor, marks that receipt alone refunded, and
/// leaves the whitelist and the totals as they were.
pub proof fn law_refund_always_possible(s: BridgeView, at: u32, id: u64, token: Seq<u8>)
    requires
        s.admin is Some,
        id < s.receipts.len(),
        !s.receipts[id as int].refunded,
    ensures
        ({
            let step = s.refund_deposit(at, id);
            let s1 = step.post(s);
            let rc = s.receipts[id as int];
            &&& step.is_ok()
            &&& step.outcome->Ok_0.transfers == seq![
                TransferView::Out { token: rc.token, to: rc.depositor, amount: rc.amount },
            ]
            &&& s1.receipts.len() == s.receipts.len()
            &&& s1.receipts[id as int].refunded
            &&& s1.receipts[id as int].amount == rc.amount
            &&& s1.receipts[id as int].depositor == rc.depositor
            &&& s1.receipts[id as int].token == rc.token
            &&& forall|j: int|
                0 <= j < s.receipts.len() && j != id ==> #[trigger] s1.receipts[j] == s.receipts[j]
            &&& s1.registry == s.registry
            &&& s1.user_deposited == s.user_deposited
        }),
        s.remove_token(token).is_ok() ==> ({
            let s2 = s.remove_token(token).post(s);
            &&& s2.refund_deposit(at, id).is_ok()
            &&& s2.refund_deposit(at, id).outcome->Ok_0.transfers == s.refund_deposit(
                at,
                id,
            ).outcome->Ok_0.transfers
        }),
{
}

/// `set_limit` on a whitelisted token, by the admin, with a positive limit
/// always succeeds; afterwards that token's limit is the new one and its
/// total is kept, every other token's entry (and whether it is listed) is
/// unchanged, and a deposit of the token is held to the new limit.
pub proof fn law_set_limit(
    s: BridgeView,
    token: Seq<u8>,
    new_limit: i128,
    at: u32,
    from: Seq<u8>,
    amount: i128,
    reference: Seq<u8>,
)
    requires
        s.admin is Some,
        new_limit > 0,
        s.registry.contains_key(token),
    ensures
        ({
            let step = s.set_limit(token, new_limit);
            let s1 = step.post(s);
            &&& step.is_ok()
            &&& s1.registry.contains_key(token)
            &&& s1.registry[token].limit == new_limit
            &&& s1.registry[token].total_deposited == s.registry[token].total_deposited
            &&& forall|k: Seq<u8>|
                k != token ==> (#[trigger] s1.registry.contains_key(k)) == s.registry.contains_key(k)
                    && (s.registry.contains_key(k) ==> s1.registry[k] == s.registry[k])
            &&& !s.cooldown_blocks(at, from) && reference.len() <= MAX_REFERENCE_LEN && amount > 0
                ==> (s1.deposit(at, from, amount, token, reference).is_ok() <==> amount
                <= new_limit)
        }),
{
}

/// Cancelling a pending request, by the admin, always succeeds: that
/// request is gone (it can no longer be executed or cancelled), the request
/// ids are kept, and every other request is unchanged.
pub proof fn law_cancel_withdrawal(s: BridgeView, id: u64, at: u32, partial: Option<i128>, balance: i128)
    requires
        s.admin is Some,
        s.has_request(id),
    ensures
        ({
            let step = s.cancel_withdrawal(id);
            let s1 = step.post(s);
            &&& step.is_ok()
            &&& s1.requests.len() == s.requests.len()
            &&& s1.requests[id as int] is None
            &&& forall|j: int|
                0 <= j < s.requests.len() && j != id ==> #[trigger] s1.requests[j] == s.requests[j]
            &&& s1.execute_withdrawal(at, id, partial, balance).outcome == Err::<Commit<()>, Error>(
                Error::RequestNotFound,
            )
            &&& s1.cancel_withdrawal(id).outcome == Err::<Commit<()>, Error>(Error::RequestNotFound)
        }),
{
}

/// Executing a queued admin action whose timelock has passed, by the admin,
/// always succeeds and runs it exactly once: that action is gone (a second
/// execution is refused with `ActionNotQueued`), the action ids are kept,
/// every other queued action is unchanged, and the ledger counts as admin
/// activity.
pub proof fn law_execute_admin_action(s: BridgeView, at: u32, id: u64, at2: u32)
    requires
        s.admin is Some,
        s.has_action(id),
        at > s.actions[id as int]->Some_0.target_ledger,
    ensures
        ({
            let step = s.execute_admin_action(at, id);
            let s1 = step.post(s);
            &&& step.is_ok()
            &&& s1.actions.len() == s.actions.len()
            &&& s1.actions[id as int] is None
            &&& forall|j: int|
                0 <= j < s.actions.len() && j != id ==> #[trigger] s1.actions[j] == s.actions[j]
            &&& s1.last_admin_action == at
            &&& s1.execute_admin_action(at2, id).outcome == Err::<Commit<()>, Error>(
                Error::ActionNotQueued,
            )
        }),
{
}

/// The request that `op` may change in place (-1 for none).
pub open spec fn request_touched(op: Operation) -> int {
    match op {
        Operation::ExecuteWithdrawal { request_id, .. } => request_id as int,
        Operation::CancelWithdrawal { request_id } => request_id as int,
        _ => -1,
    }
}

/// The queued admin action that `op` may change in place (-1 for none).
pub open spec fn action_touched(op: Operation) -> int {
    match op {
        Operation::ExecuteAdminAction { action_id } => action_id as int,
        Operation::CancelAdminAction { action_id } => action_id as int,
        _ => -1,
    }
}

/// The receipt that `op` may change in place (-1 for none).
pub open spec fn receipt_touched(op: Operation) -> int {
    match op {
        Operation::RefundDeposit { receipt_id } => receipt_id as int,
        _ => -1,
    }
}

/// The whitelisted token whose entry `op` may change, if any.
pub open spec fn token_touched(op: Operation) -> Option<Seq<u8>> {
    match op {
        Operation::Init { token, .. } => Some(token),
        Operation::Deposit { token, .. } => Some(token),
        Operation::SetLimit { token, .. } => Some(token),
        Operation::AddToken { token, .. } => Some(token),
        Operation::RemoveToken { token } => Some(token),
        _ => None,
    }
}

/// The address whose deposit records `op` may change, if any.
pub open spec fn depositor_touched(op: Operation) -> Option<Seq<u8>> {
    match op {
        Operation::Deposit { from, .. } => Some(from),
        _ => None,
    }
}

/// Every operation changes only what it names: of the existing requests,
/// queued actions and receipts at most the one whose id it is given, of the
/// whitelist at most the entry of the token it is given, and of the
/// per-address deposit records at most those of the depositor; everything
/// else stays as it was.
pub proof fn law_operation_frame(s: BridgeView, at: u32, op: Operation)
    ensures
        ({
            let t = s.after(at, op);
            &&& forall|j: int|
                0 <= j < s.requests.len() && j != request_touched(op) ==> #[trigger] t.requests[j]
                    == s.requests[j]
            &&& forall|j: int|
                0 <= j < s.actions.len() && j != action_touched(op) ==> #[trigger] t.actions[j]
                    == s.actions[j]
            &&& forall|j: int|
                0 <= j < s.receipts.len() && j != receipt_touched(op) ==> #[trigger] t.receipts[j]
                    == s.receipts[j]
            &&& forall|k: Seq<u8>|
                token_touched(op) != Some(k) ==> (#[trigger] t.registry.contains_key(k))
                    == s.registry.contains_key(k) && (s.registry.contains_key(k) ==> t.registry[k]
                    == s.registry[k])
            &&& forall|u: Seq<u8>|
                depositor_touched(op) != Some(u) ==> #[trigger] t.user_total(u) == s.user_total(u)
                    && t.last_deposit.contains_key(u) == s.last_deposit.contains_key(u) && (
                    s.last_deposit.contains_key(u) ==> t.last_deposit[u] == s.last_deposit[u])
        }),
{
}

/// Each setting changes only through the operation that is for it, and
/// then to the value that operation is given: the lock period, the
/// cooldown and the daily cap through their setters; the nomination
/// through `transfer_admin` (set) and `accept_admin` or
/// `cancel_admin_transfer` (cleared); the recovery address through its
/// setter (set) and `claim_admin` (cleared); the inactivity threshold
/// through its setter or `init` (the default); the default token through
/// `init`; the last admin action only to the current ledger and only by
/// `init`, a refund, an executed admin action or the two recovery
/// settings; the payout log only by payouts; and the number of requests,
/// queued actions and receipts only by one, through the operation that
/// makes one.
pub proof fn law_settings_frame(s: BridgeView, at: u32, op: Operation)
    ensures
        ({
            let t = s.after(at, op);
            &&& t.lock_period != s.lock_period ==> match op {
                Operation::SetLockPeriod { ledgers } => t.lock_period == ledgers,
                _ => false,
            }
            &&& t.cooldown != s.cooldown ==> match op {
                Operation::SetCooldown { ledgers } => t.cooldown == ledgers,
                _ => false,
            }
            &&& t.daily_limit != s.daily_limit ==> match op {
                Operation::SetDailyLimit { limit } => t.daily_limit == Some(limit),
                _ => false,
            }
            &&& t.pending_admin != s.pending_admin ==> match op {
                Operation::TransferAdmin { new_admin } => t.pending_admin == Some(new_admin),
                Operation::AcceptAdmin { .. } => t.pending_admin is None,
                Operation::CancelAdminTransfer => t.pending_admin is None,
                _ => false,
            }
            &&& t.recovery != s.recovery ==> match op {
                Operation::SetEmergencyRecoveryAddress { address } => t.recovery == Some(address),
                Operation::ClaimAdmin => t.recovery is None,
                _ => false,
            }
            &&& t.inactivity_threshold != s.inactivity_threshold ==> match op {
                Operation::SetInactivityThreshold { threshold_ledgers } => t.inactivity_threshold
                    == threshold_ledgers,
                Operation::Init { .. } => t.inactivity_threshold == DEFAULT_INACTIVITY_THRESHOLD,
                _ => false,
            }
            &&& t.token != s.token ==> match op {
                Operation::Init { token, .. } => t.token == Some(token),
                _ => false,
            }
            &&& t.last_admin_action != s.last_admin_action ==> t.last_admin_action == at && (
            op is Init || op is RefundDeposit || op is ExecuteAdminAction
                || op is SetEmergencyRecoveryAddress || op is SetInactivityThreshold)
            &&& t.withdrawals != s.withdrawals ==> op is Withdraw || op is ExecuteWithdrawal
            &&& t.requests.len() != s.requests.len() ==> op is RequestWithdrawal
                && t.requests.len() == s.requests.len() + 1
            &&& t.actions.len() != s.actions.len() ==> op is QueueAdminAction && t.actions.len()
                == s.actions.len() + 1
            &&& t.receipts.len() != s.receipts.len() ==> op is Deposit && t.receipts.len()
                == s.receipts.len() + 1
        }),
{
}

/// On an initialised bridge the admin's settings always take: the lock
/// period, the cooldown, the recovery address and the inactivity threshold
/// become the given values (the last two counting as admin activity at the
/// current ledger), and a daily cap becomes the given one exactly when it
/// is not negative (a negative one is refused with `ZeroAmount`).
pub proof fn law_settings_take(s: BridgeView, at: u32, ledgers: u32, limit: i128, address: Seq<u8>)
    requires
        s.admin is Some,
    ensures
        s.set_lock_period(ledgers).post(s).lock_period == ledgers,
        s.set_cooldown(ledgers).post(s).cooldown == ledgers,
        s.set_emergency_recovery_address(at, address).is_ok(),
        s.set_emergency_recovery_address(at, address).post(s).recovery == Some(address),
        s.set_emergency_recovery_address(at, address).post(s).last_admin_action == at,
        s.set_inactivity_threshold(at, ledgers).is_ok(),
        s.set_inactivity_threshold(at, ledgers).post(s).inactivity_threshold == ledgers,
        s.set_inactivity_threshold(at, ledgers).post(s).last_admin_action == at,
        limit >= 0 ==> s.set_daily_limit(limit).is_ok() && s.set_daily_limit(limit).post(s).daily_limit
            == Some(limit),
        limit < 0 ==> s.set_daily_limit(limit).outcome == Err::<Commit<()>, Error>(
            Error::ZeroAmount,
        ),
{
}

/// `init` on a fresh bridge with a positive limit makes the given address
/// the admin and the given token the default one, whitelisted with that
/// limit and a total of 0, so that deposits of it up to the limit are
/// accepted; a limit that is not positive is refused with `ZeroAmount`.
pub proof fn law_init(
    s: BridgeView,
    at: u32,
    admin: Seq<u8>,
    token: Seq<u8>,
    limit: i128,
    from: Seq<u8>,
    amount: i128,
    reference: Seq<u8>,
)
    requires
        s.admin is None,
    ensures
        limit <= 0 ==> s.init(at, admin, token, limit).outcome == Err::<Commit<()>, Error>(
            Error::ZeroAmount,
        ),
        limit > 0 ==> ({
            let s1 = s.init(at, admin, token, limit).post(s);
            &&& s.init(at, admin, token, limit).is_ok()
            &&& s1.admin == Some(admin)
            &&& s1.token == Some(token)
            &&& s1.registry.contains_key(token)
            &&& s1.registry[token] == (TokenConfig { limit, total_deposited: 0 })
            &&& s1.last_admin_action == at
            &&& !s.cooldown_blocks(at, from) && reference.len() <= MAX_REFERENCE_LEN && 0 < amount
                <= limit ==> s1.deposit(at, from, amount, token, reference).is_ok()
        }),
{
}

/// The whitelist: on an initialised bridge, `add_token` with a positive
/// limit always lists the token with that limit and a fresh total of 0
/// (a limit that is not positive is refused with `ZeroAmount`), after which
/// deposits of it up to the limit are accepted; `remove_token` of a listed
/// token always succeeds and unlists it, and of an unlisted one is refused
/// with `TokenNotWhitelisted`.
pub proof fn law_whitelist(
    s: BridgeView,
    token: Seq<u8>,
    limit: i128,
    at: u32,
    from: Seq<u8>,
    amount: i128,
    reference: Seq<u8>,
)
    requires
        s.admin is Some,
    ensures
        limit <= 0 ==> s.add_token(token, limit).outcome == Err::<Commit<()>, Error>(
            Error::ZeroAmount,
        ),
        limit > 0 ==> ({
            let s1 = s.add_token(token, limit).post(s);
            &&& s.add_token(token, limit).is_ok()
            &&& s1.registry.contains_key(token)
            &&& s1.registry[token] == (TokenConfig { limit, total_deposited: 0 })
            &&& !s.cooldown_blocks(at, from) && reference.len() <= MAX_REFERENCE_LEN && 0 < amount
                <= limit ==> s1.deposit(at, from, amount, token, reference).is_ok()
        }),
        s.registry.contains_key(token) ==> s.remove_token(token).is_ok() && !s.remove_token(
            token,
        ).post(s).registry.contains_key(token),
        !s.registry.contains_key(token) ==> s.remove_token(token).outcome == Err::<
            Commit<()>,
            Error,
        >(Error::TokenNotWhitelisted),
{
}

/// Cancelling a queued admin action, by the admin, always succeeds, at any
/// ledger: that action is gone (it can no longer be executed), the action
/// ids are kept, and every other queued action is unchanged.
pub proof fn law_cancel_admin_action(s: BridgeView, id: u64, at: u32)
    requires
        s.admin is Some,
        s.has_action(id),
    ensures
        ({
            let step = s.cancel_admin_action(id);
            let s1 = step.post(s);
            &&& step.is_ok()
            &&& s1.actions.len() == s.actions.len()
            &&& s1.actions[id as int] is None
            &&& forall|j: int|
                0 <= j < s.actions.len() && j != id ==> #[trigger] s1.actions[j] == s.actions[j]
            &&& s1.execute_admin_action(at, id).outcome == Err::<Commit<()>, Error>(
                Error::ActionNotQueued,
            )
        }),
{
}

/// The events a successful operation publishes, read off its arguments and
/// the state it ran on: a deposit announces the deposit and the receipt it
/// issued; a withdrawal its payee and amount; a refund the receipt and its
/// depositor; the admin hand-over, the whitelist and the action queue each
/// announce what changed; the settings publish nothing.
pub proof fn law_events(s: BridgeView, at: u32, op: Operation)
    ensures
        match op {
            Operation::Deposit { from, amount, token, reference } => s.deposit(
                at,
                from,
                amount,
                token,
                reference,
            ).is_ok() ==> s.deposit(at, from, amount, token, reference).outcome->Ok_0.events
                == seq![
                EventView::Deposit { from, amount },
                EventView::ReceiptIssued { receipt_id: s.receipts.len() as u64 },
            ],
            Operation::Withdraw { to, amount, token, balance } => s.withdraw(
                at,
                to,
                amount,
                token,
                balance,
            ).is_ok() ==> s.withdraw(at, to, amount, token, balance).outcome->Ok_0.events
                == seq![EventView::Withdraw { to, amount }],
            Operation::RefundDeposit { receipt_id } => s.refund_deposit(at, receipt_id).is_ok()
                ==> s.refund_deposit(at, receipt_id).outcome->Ok_0.events == seq![
                EventView::Refund {
                    receipt_id,
                    depositor: s.receipts[receipt_id as int].depositor,
                },
            ],
            Operation::TransferAdmin { new_admin } => s.transfer_admin(new_admin).is_ok()
                ==> s.transfer_admin(new_admin).outcome->Ok_0.events == seq![
                EventView::AdminNominated { new_admin },
            ],
            Operation::AcceptAdmin { claimant } => s.accept_admin(claimant).is_ok()
                ==> s.accept_admin(claimant).outcome->Ok_0.events == seq![
                EventView::AdminAccepted { admin: claimant },
            ],
            Operation::CancelAdminTransfer => s.cancel_admin_transfer().is_ok()
                ==> s.cancel_admin_transfer().outcome->Ok_0.events == seq![
                EventView::AdminTransferCancelled { pending: s.pending_admin->Some_0 },
            ],
            Operation::QueueAdminAction { action_type, payload, delay_ledgers } =>
                s.queue_admin_action(at, action_type, payload, delay_ledgers).is_ok()
                ==> s.queue_admin_action(at, action_type, payload, delay_ledgers).outcome->Ok_0.events
                == seq![
                EventView::ActionQueued {
                    action_id: s.actions.len() as u64,
                    action_type,
                    delay_ledgers,
                },
            ],
            Operation::ExecuteAdminAction { action_id } => s.execute_admin_action(
                at,
                action_id,
            ).is_ok() ==> s.execute_admin_action(at, action_id).outcome->Ok_0.events == seq![
                EventView::ActionExecuted {
                    action_id,
                    action_type: s.actions[action_id as int]->Some_0.action_type,
                },
            ],
            Operation::CancelAdminAction { action_id } => s.cancel_admin_action(action_id).is_ok()
                ==> s.cancel_admin_action(action_id).outcome->Ok_0.events == seq![
                EventView::ActionCancelled {
                    action_id,
                    action_type: s.actions[action_id as int]->Some_0.action_type,
                },
            ],
            Operation::ClaimAdmin => s.claim_admin(at).is_ok() ==> s.claim_admin(
                at,
            ).outcome->Ok_0.events == seq![EventView::AdminClaimed { admin: s.recovery->Some_0 }],
            Operation::AddToken { token, limit } => s.add_token(token, limit).is_ok() ==> s.add_token(
                token,
                limit,
            ).outcome->Ok_0.events == seq![EventView::TokenAdded { token }],
            Operation::RemoveToken { token } => s.remove_token(token).is_ok() ==> s.remove_token(
                token,
            ).outcome->Ok_0.events == seq![EventView::TokenRemoved { token }],
            Operation::SetDailyLimit { limit } => s.set_daily_limit(limit).is_ok()
                ==> s.set_daily_limit(limit).outcome->Ok_0.events.len() == 0,
            Operation::SetLockPeriod { ledgers } => s.set_lock_period(ledgers).is_ok()
                ==> s.set_lock_period(ledgers).outcome->Ok_0.events.len() == 0,
            Operation::SetCooldown { ledgers } => s.set_cooldown(ledgers).is_ok() ==> s.set_cooldown(
                ledgers,
            ).outcome->Ok_0.events.len() == 0,
            Operation::SetLimit { token, new_limit } => s.set_limit(token, new_limit).is_ok()
                ==> s.set_limit(token, new_limit).outcome->Ok_0.events.len() == 0,
            _ => true,
        },
{
}

} // verus!
