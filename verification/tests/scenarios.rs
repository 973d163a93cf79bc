use fiat_bridge::addr::Addr;
use fiat_bridge::bridge::FiatBridge;
use fiat_bridge::effects::{Event, Invocation, Transfer};
use fiat_bridge::types::{
    Error, TokenConfig, DEFAULT_INACTIVITY_THRESHOLD, MIN_TIMELOCK_DELAY, WINDOW_LEDGERS,
};

fn addr(s: &str) -> Addr {
    Addr::new(s.as_bytes().to_vec())
}

fn at(sequence: u32) -> Invocation {
    Invocation::new(sequence)
}

fn initialised(limit: i128) -> FiatBridge {
    let mut b = FiatBridge::new();
    b.init(&mut at(0), addr("GADMIN"), addr("CTOKEN"), limit).unwrap();
    b
}

#[test]
fn fresh_bridge_defaults() {
    let b = FiatBridge::new();
    assert_eq!(b.get_admin(), Err(Error::NotInitialized));
    assert_eq!(b.get_token(), Err(Error::NotInitialized));
    assert_eq!(b.get_limit(), Err(Error::NotInitialized));
    assert_eq!(b.get_total_deposited(), Err(Error::NotInitialized));
    assert_eq!(b.get_user_deposited(addr("GU")), Err(Error::NotInitialized));
    assert_eq!(b.get_lock_period(), 0);
    assert_eq!(b.get_cooldown(), 0);
    assert_eq!(b.get_receipt_counter(), 0);
    assert_eq!(b.get_inactivity_threshold(), DEFAULT_INACTIVITY_THRESHOLD);
    assert_eq!(b.get_last_admin_action_ledger(), 0);
    assert_eq!(b.get_pending_admin(), None);
    assert_eq!(b.get_emergency_recovery_address(), None);
}

#[test]
fn init_records_ledger_and_rejects_bad_limit() {
    let mut b = FiatBridge::new();
    assert_eq!(b.init(&mut at(7), addr("GA"), addr("CT"), 0), Err(Error::ZeroAmount));
    assert_eq!(b.init(&mut at(7), addr("GA"), addr("CT"), -5), Err(Error::ZeroAmount));
    b.init(&mut at(7), addr("GA"), addr("CT"), 10).unwrap();
    assert_eq!(b.get_last_admin_action_ledger(), 7);
    assert_eq!(b.get_token_config(addr("CT")), Some(TokenConfig { limit: 10, total_deposited: 0 }));
    assert_eq!(b.init(&mut at(8), addr("GB"), addr("CT"), 10), Err(Error::AlreadyInitialized));
    assert_eq!(b.get_admin(), Ok(addr("GA")));
}

#[test]
fn admin_operations_need_initialisation() {
    let mut b = FiatBridge::new();
    let mut inv = at(0);
    assert_eq!(b.set_lock_period(&mut inv, 5), Err(Error::NotInitialized));
    assert_eq!(b.set_cooldown(&mut inv, 5), Err(Error::NotInitialized));
    assert_eq!(b.transfer_admin(&mut inv, addr("GX")), Err(Error::NotInitialized));
    assert_eq!(b.request_withdrawal(&mut inv, addr("GX"), 5, addr("CT")), Err(Error::NotInitialized));
    assert_eq!(b.cancel_admin_transfer(&mut inv), Err(Error::NotInitialized));
    assert!(inv.auths.is_empty());
    // withdraw demands the recipient's authorisation before finding no admin
    assert_eq!(b.withdraw(&mut inv, addr("GX"), 5, addr("CT"), 100), Err(Error::NotInitialized));
    assert_eq!(inv.auths, vec![addr("GX")]);
}

#[test]
fn deposit_demands_depositor_and_records_effects() {
    let mut b = initialised(500);
    let mut inv = at(3);
    let id = b.deposit(&mut inv, addr("GU"), 120, addr("CTOKEN"), b"ref".to_vec()).unwrap();
    assert_eq!(id, 0);
    assert_eq!(inv.auths, vec![addr("GU")]);
    assert_eq!(
        inv.transfers,
        vec![Transfer::In { token: addr("CTOKEN"), from: addr("GU"), amount: 120 }]
    );
    assert_eq!(
        inv.events,
        vec![Event::Deposit { from: addr("GU"), amount: 120 }, Event::ReceiptIssued { receipt_id: 0 }]
    );
    let r = b.get_receipt(0).unwrap();
    assert_eq!((r.ledger, r.amount, r.refunded), (3, 120, false));
}

#[test]
fn failed_operation_changes_nothing() {
    let mut b = initialised(100);
    let mut inv = at(0);
    assert_eq!(
        b.deposit(&mut inv, addr("GU"), 101, addr("CTOKEN"), Vec::new()),
        Err(Error::ExceedsLimit)
    );
    assert!(inv.transfers.is_empty() && inv.events.is_empty());
    assert_eq!(b.get_receipt_counter(), 0);
    assert_eq!(b.get_total_deposited(), Ok(0));
    assert_eq!(b.get_user_deposited(addr("GU")), Ok(0));
}

#[test]
fn deposit_of_unknown_token_refused() {
    let mut b = initialised(100);
    assert_eq!(
        b.deposit(&mut at(0), addr("GU"), 10, addr("COTHER"), Vec::new()),
        Err(Error::TokenNotWhitelisted)
    );
}

#[test]
fn add_token_resets_total_and_set_limit_needs_whitelist() {
    let mut b = initialised(100);
    b.deposit(&mut at(0), addr("GU"), 40, addr("CTOKEN"), Vec::new()).unwrap();
    assert_eq!(b.get_total_deposited(), Ok(40));
    b.add_token(&mut at(0), addr("CTOKEN"), 300).unwrap();
    assert_eq!(b.get_total_deposited(), Ok(0));
    assert_eq!(b.get_limit(), Ok(300));
    assert_eq!(b.add_token(&mut at(0), addr("CNEW"), 0), Err(Error::ZeroAmount));
    assert_eq!(b.set_limit(&mut at(0), addr("CNEW"), 5), Err(Error::TokenNotWhitelisted));
    assert_eq!(b.set_limit(&mut at(0), addr("CTOKEN"), 0), Err(Error::ZeroAmount));
    assert_eq!(b.remove_token(&mut at(0), addr("CNEW")), Err(Error::TokenNotWhitelisted));
    let mut inv = at(0);
    b.remove_token(&mut inv, addr("CTOKEN")).unwrap();
    assert_eq!(inv.events, vec![Event::TokenRemoved { token: addr("CTOKEN") }]);
    assert_eq!(b.get_limit(), Err(Error::TokenNotWhitelisted));
    assert_eq!(b.get_total_deposited(), Err(Error::TokenNotWhitelisted));
}

#[test]
fn withdraw_demands_recipient_then_admin() {
    let mut b = initialised(100);
    let mut inv = at(0);
    b.withdraw(&mut inv, addr("GTO"), 50, addr("CTOKEN"), 50).unwrap();
    assert_eq!(inv.auths, vec![addr("GTO"), addr("GADMIN")]);
    assert_eq!(
        inv.transfers,
        vec![Transfer::Out { token: addr("CTOKEN"), to: addr("GTO"), amount: 50 }]
    );
    let mut inv = at(0);
    assert_eq!(b.withdraw(&mut inv, addr("GTO"), 51, addr("CTOKEN"), 50), Err(Error::InsufficientFunds));
    assert_eq!(inv.auths, vec![addr("GTO"), addr("GADMIN")]);
    let mut inv = at(0);
    assert_eq!(b.withdraw(&mut inv, addr("GTO"), 0, addr("CTOKEN"), 50), Err(Error::ZeroAmount));
    assert_eq!(inv.auths, vec![addr("GTO")]);
}

#[test]
fn partial_execution_bounds() {
    let mut b = initialised(1000);
    let id = b.request_withdrawal(&mut at(0), addr("GTO"), 300, addr("CTOKEN")).unwrap();
    assert_eq!(b.execute_withdrawal(&mut at(0), id, Some(0), 1000), Err(Error::ZeroAmount));
    assert_eq!(b.execute_withdrawal(&mut at(0), id, Some(301), 1000), Err(Error::ZeroAmount));
    assert_eq!(b.execute_withdrawal(&mut at(0), id, Some(200), 100), Err(Error::InsufficientFunds));
    let mut inv = at(0);
    b.execute_withdrawal(&mut inv, id, Some(100), 1000).unwrap();
    assert_eq!(
        inv.events,
        vec![Event::PartialWithdrawalExecuted { request_id: id, executed: 100, remaining: 200 }]
    );
    assert!(inv.auths.is_empty());
    assert_eq!(b.get_withdrawal_request(id).unwrap().amount, 200);
    b.execute_withdrawal(&mut at(0), id, None, 1000).unwrap();
    assert_eq!(b.get_withdrawal_request(id), None);
    assert_eq!(b.execute_withdrawal(&mut at(0), id, None, 1000), Err(Error::RequestNotFound));
    assert_eq!(b.cancel_withdrawal(&mut at(0), id), Err(Error::RequestNotFound));
}

#[test]
fn unlock_ledger_follows_lock_period() {
    let mut b = initialised(1000);
    b.set_lock_period(&mut at(0), 40).unwrap();
    let id = b.request_withdrawal(&mut at(10), addr("GTO"), 5, addr("CTOKEN")).unwrap();
    assert_eq!(b.get_withdrawal_request(id).unwrap().unlock_ledger, 50);
    assert_eq!(b.execute_withdrawal(&mut at(49), id, None, 10), Err(Error::WithdrawalLocked));
    b.execute_withdrawal(&mut at(50), id, None, 10).unwrap();
    assert_eq!(b.request_withdrawal(&mut at(0), addr("GTO"), 0, addr("CTOKEN")), Err(Error::ZeroAmount));
}

#[test]
fn refund_pays_deposited_token_and_counts_as_activity() {
    let mut b = initialised(1000);
    b.add_token(&mut at(0), addr("COTHER"), 1000).unwrap();
    let id = b.deposit(&mut at(0), addr("GU"), 70, addr("COTHER"), Vec::new()).unwrap();
    assert_eq!(b.get_receipt(id).unwrap().token, addr("COTHER"));
    let mut inv = at(9);
    b.refund_deposit(&mut inv, id).unwrap();
    assert_eq!(
        inv.transfers,
        vec![Transfer::Out { token: addr("COTHER"), to: addr("GU"), amount: 70 }]
    );
    assert_eq!(inv.events, vec![Event::Refund { receipt_id: id, depositor: addr("GU") }]);
    assert_eq!(b.get_last_admin_action_ledger(), 9);
}

#[test]
fn handover_errors() {
    let mut b = initialised(10);
    assert_eq!(b.cancel_admin_transfer(&mut at(0)), Err(Error::NoPendingAdmin));
    assert_eq!(b.accept_admin(&mut at(0), addr("GN")), Err(Error::NoPendingAdmin));
    b.transfer_admin(&mut at(0), addr("GN")).unwrap();
    let mut inv = at(0);
    b.cancel_admin_transfer(&mut inv).unwrap();
    assert_eq!(inv.events, vec![Event::AdminTransferCancelled { pending: addr("GN") }]);
    assert_eq!(b.accept_admin(&mut at(0), addr("GN")), Err(Error::NoPendingAdmin));
    b.transfer_admin(&mut at(0), addr("GN")).unwrap();
    let mut inv = at(0);
    b.accept_admin(&mut inv, addr("GN")).unwrap();
    assert_eq!(inv.auths, vec![addr("GN")]);
    assert_eq!(b.get_admin(), Ok(addr("GN")));
    // the new admin now gates configuration
    let mut inv = at(0);
    b.set_cooldown(&mut inv, 3).unwrap();
    assert_eq!(inv.auths, vec![addr("GN")]);
}

#[test]
fn timelock_rules() {
    let mut b = initialised(10);
    assert_eq!(
        b.queue_admin_action(&mut at(0), b"a".to_vec(), Vec::new(), MIN_TIMELOCK_DELAY - 1),
        Err(Error::ActionNotReady)
    );
    let id = b.queue_admin_action(&mut at(100), b"a".to_vec(), b"p".to_vec(), MIN_TIMELOCK_DELAY).unwrap();
    let q = b.get_queued_admin_action(id).unwrap();
    assert_eq!((q.queued_ledger, q.target_ledger), (100, 100 + MIN_TIMELOCK_DELAY));
    assert_eq!(
        b.execute_admin_action(&mut at(100 + MIN_TIMELOCK_DELAY), id),
        Err(Error::ActionNotReady)
    );
    let mut inv = at(101 + MIN_TIMELOCK_DELAY);
    b.execute_admin_action(&mut inv, id).unwrap();
    assert_eq!(inv.events, vec![Event::ActionExecuted { action_id: id, action_type: b"a".to_vec() }]);
    assert_eq!(b.get_last_admin_action_ledger(), 101 + MIN_TIMELOCK_DELAY);
    assert_eq!(b.execute_admin_action(&mut at(0), id), Err(Error::ActionNotQueued));
    assert_eq!(b.cancel_admin_action(&mut at(0), id), Err(Error::ActionNotQueued));
    assert_eq!(b.cancel_admin_action(&mut at(0), 77), Err(Error::ActionNotQueued));
}

#[test]
fn activity_postpones_recovery() {
    let mut b = initialised(10);
    b.set_emergency_recovery_address(&mut at(0), addr("GREC")).unwrap();
    b.set_inactivity_threshold(&mut at(10), 100).unwrap();
    assert_eq!(b.claim_admin(&mut at(110)), Err(Error::InactivityThresholdNotReached));
    let mut inv = at(111);
    b.claim_admin(&mut inv).unwrap();
    assert_eq!(inv.auths, vec![addr("GREC")]);
    assert_eq!(inv.events, vec![Event::AdminClaimed { admin: addr("GREC") }]);
    assert_eq!(b.get_admin(), Ok(addr("GREC")));
    assert_eq!(b.claim_admin(&mut at(500)), Err(Error::NoEmergencyRecoveryAddress));
}

#[test]
fn daily_limit_validation() {
    let mut b = initialised(10);
    assert_eq!(b.set_daily_limit(&mut at(0), -1), Err(Error::ZeroAmount));
    b.set_daily_limit(&mut at(0), 0).unwrap();
    // a cap of 0 does not limit anything
    b.withdraw(&mut at(0), addr("GTO"), 100, addr("CTOKEN"), 100).unwrap();
    b.set_daily_limit(&mut at(0), 1000).unwrap();
}

#[test]
fn daily_cap_limits_withdrawals_in_window() {
    let mut b = initialised(1000);
    b.set_daily_limit(&mut at(0), 100).unwrap();
    b.withdraw(&mut at(10), addr("GTO"), 80, addr("CTOKEN"), 1000).unwrap();
    let mut inv = at(11);
    assert_eq!(b.withdraw(&mut inv, addr("GTO"), 50, addr("CTOKEN"), 1000), Err(Error::ExceedsLimit));
    assert!(inv.transfers.is_empty());
    b.withdraw(&mut at(11), addr("GTO"), 20, addr("CTOKEN"), 1000).unwrap();
    assert_eq!(b.withdraw(&mut at(11), addr("GTO"), 1, addr("CTOKEN"), 1000), Err(Error::ExceedsLimit));
    // the first payout stops counting 17 280 ledgers after it was made
    assert_eq!(
        b.withdraw(&mut at(10 + WINDOW_LEDGERS - 1), addr("GTO"), 1, addr("CTOKEN"), 1000),
        Err(Error::ExceedsLimit)
    );
    b.withdraw(&mut at(10 + WINDOW_LEDGERS), addr("GTO"), 60, addr("CTOKEN"), 1000).unwrap();
    // request executions count against the same cap
    let id = b.request_withdrawal(&mut at(10 + WINDOW_LEDGERS), addr("GTO"), 30, addr("CTOKEN")).unwrap();
    let mut inv = at(10 + WINDOW_LEDGERS);
    assert_eq!(b.execute_withdrawal(&mut inv, id, None, 1000), Err(Error::ExceedsLimit));
    assert!(inv.transfers.is_empty());
    b.execute_withdrawal(&mut at(10 + WINDOW_LEDGERS), id, Some(20), 1000).unwrap();
    assert_eq!(b.get_withdrawal_request(id).unwrap().amount, 10);
    // removing the cap lifts the limit
    b.set_daily_limit(&mut at(0), 0).unwrap();
    b.execute_withdrawal(&mut at(10 + WINDOW_LEDGERS), id, None, 1000).unwrap();
}

#[test]
fn cooldown_window_edges() {
    let mut b = initialised(1000);
    b.set_cooldown(&mut at(0), 10).unwrap();
    b.deposit(&mut at(100), addr("GU"), 1, addr("CTOKEN"), Vec::new()).unwrap();
    assert_eq!(b.get_last_deposit_ledger(109, addr("GU")), Some(100));
    assert_eq!(b.get_last_deposit_ledger(110, addr("GU")), None);
    assert_eq!(
        b.deposit(&mut at(109), addr("GU"), 1, addr("CTOKEN"), Vec::new()),
        Err(Error::CooldownActive)
    );
    b.deposit(&mut at(110), addr("GU"), 1, addr("CTOKEN"), Vec::new()).unwrap();
    assert_eq!(b.get_last_deposit_ledger(110, addr("GU")), Some(110));
    // without a cooldown nothing is reported
    b.set_cooldown(&mut at(0), 0).unwrap();
    assert_eq!(b.get_last_deposit_ledger(110, addr("GU")), None);
}

#[test]
fn overflow_guards() {
    let mut b = initialised(i128::MAX);
    b.set_lock_period(&mut at(0), u32::MAX).unwrap();
    assert!(b.request_withdrawal_overflows(1, 5));
    assert!(!b.request_withdrawal_overflows(0, 5));
    assert!(!b.request_withdrawal_overflows(1, 0));
    assert!(b.queue_admin_action_overflows(u32::MAX, MIN_TIMELOCK_DELAY));
    assert!(!b.queue_admin_action_overflows(u32::MAX, 1));
    b.deposit(&mut at(0), addr("GU"), i128::MAX, addr("CTOKEN"), Vec::new()).unwrap();
    assert!(b.deposit_overflows(0, &addr("GV"), 1, &addr("CTOKEN"), &Vec::new()));
    assert!(!b.deposit_overflows(0, &addr("GV"), 0, &addr("CTOKEN"), &Vec::new()));
    b.set_emergency_recovery_address(&mut at(5), addr("GREC")).unwrap();
    assert!(!b.claim_admin_overflows());
    b.set_inactivity_threshold(&mut at(5), u32::MAX).unwrap();
    assert!(b.claim_admin_overflows());
    b.set_cooldown(&mut at(0), 3).unwrap();
    b.add_token(&mut at(0), addr("CT2"), 10).unwrap();
    b.deposit(&mut at(50), addr("GW"), 1, addr("CT2"), Vec::new()).unwrap();
    assert!(b.last_deposit_after(49, &addr("GW")));
    assert!(!b.last_deposit_after(50, &addr("GW")));
}

#[test]
fn snapshot_round_trip() {
    let mut b = initialised(1000);
    b.set_cooldown(&mut at(0), 5).unwrap();
    b.deposit(&mut at(1), addr("GU"), 10, addr("CTOKEN"), b"x".to_vec()).unwrap();
    b.request_withdrawal(&mut at(1), addr("GU"), 4, addr("CTOKEN")).unwrap();
    b.queue_admin_action(&mut at(1), b"k".to_vec(), Vec::new(), MIN_TIMELOCK_DELAY).unwrap();
    let restored = FiatBridge::restore(b.into_snapshot()).unwrap();
    assert_eq!(restored.get_total_deposited(), Ok(10));
    assert_eq!(restored.get_user_deposited(addr("GU")), Ok(10));
    assert_eq!(restored.get_last_deposit_ledger(2, addr("GU")), Some(1));
    assert_eq!(restored.get_withdrawal_request(0).unwrap().amount, 4);
    assert_eq!(restored.get_receipt(0).unwrap().reference, b"x".to_vec());
    assert!(restored.get_queued_admin_action(0).is_some());
}

#[test]
fn restore_rejects_inconsistent_parts() {
    let b = initialised(1000);
    let mut parts = b.into_snapshot();
    parts.registry.push((addr("CTOKEN"), TokenConfig { limit: 5, total_deposited: 0 }));
    assert!(FiatBridge::restore(parts).is_none());

    let mut parts = initialised(1000).into_snapshot();
    parts.registry[0].1.limit = 0;
    assert!(FiatBridge::restore(parts).is_none());

    let mut parts = initialised(1000).into_snapshot();
    parts.user_deposited.push((addr("GU"), -1));
    assert!(FiatBridge::restore(parts).is_none());

    let mut b = initialised(1000);
    b.deposit(&mut at(0), addr("GU"), 1, addr("CTOKEN"), Vec::new()).unwrap();
    let mut parts = b.into_snapshot();
    parts.receipts[0].id = 4;
    assert!(FiatBridge::restore(parts).is_none());

    let mut b = initialised(1000);
    b.queue_admin_action(&mut at(0), b"k".to_vec(), Vec::new(), MIN_TIMELOCK_DELAY).unwrap();
    let mut parts = b.into_snapshot();
    parts.admin = None;
    assert!(FiatBridge::restore(parts).is_none());

    let mut parts = initialised(1000).into_snapshot();
    parts.token = None;
    assert!(FiatBridge::restore(parts).is_none());

    let mut parts = initialised(1000).into_snapshot();
    parts.withdrawals.push((0, 0));
    assert!(FiatBridge::restore(parts).is_none());

    let mut b = initialised(1000);
    b.request_withdrawal(&mut at(0), addr("GU"), 5, addr("CTOKEN")).unwrap();
    let mut parts = b.into_snapshot();
    parts.requests[0].as_mut().unwrap().amount = 0;
    assert!(FiatBridge::restore(parts).is_none());
}

#[test]
fn addresses_compare_by_bytes() {
    assert!(addr("GA").same(&addr("GA")));
    assert!(!addr("GA").same(&addr("GB")));
    assert!(!addr("GA").same(&addr("GAA")));
    assert_eq!(addr("GA").copy(), addr("GA"));
}

#[test]
fn history_is_kept() {
    let mut b = initialised(1000);
    let id = b.deposit(&mut at(2), addr("GU"), 30, addr("CTOKEN"), b"r".to_vec()).unwrap();
    let before = b.get_receipt(id).unwrap();
    b.refund_deposit(&mut at(3), id).unwrap();
    let after = b.get_receipt(id).unwrap();
    assert_eq!(
        (after.id, after.depositor, after.amount, after.ledger, after.reference, after.refunded),
        (before.id, before.depositor, before.amount, before.ledger, before.reference, true)
    );
    let r0 = b.request_withdrawal(&mut at(3), addr("GU"), 5, addr("CTOKEN")).unwrap();
    b.cancel_withdrawal(&mut at(3), r0).unwrap();
    let r1 = b.request_withdrawal(&mut at(3), addr("GU"), 5, addr("CTOKEN")).unwrap();
    assert_eq!((r0, r1), (0, 1));
    assert_eq!(b.get_withdrawal_request(r0), None);
    assert_eq!(b.get_receipt_counter(), 1);
}
