use fiat_bridge::addr::Addr;
use fiat_bridge::bridge::FiatBridge;
use fiat_bridge::effects::{Event, Invocation, Transfer};
use fiat_bridge::types::{Error, MIN_TIMELOCK_DELAY};
use std::collections::HashMap;

// ── A small host that runs the bridge the way the ledger would ─────────

struct Host {
    bridge: FiatBridge,
    sequence: u32,
    mock_auths: bool,
    balances: HashMap<(Vec<u8>, Vec<u8>), i128>,
    events: Vec<Event>,
    next_addr: u32,
    contract: Addr,
}

impl Host {
    fn new() -> Host {
        Host {
            bridge: FiatBridge::new(),
            sequence: 0,
            mock_auths: true,
            balances: HashMap::new(),
            events: Vec::new(),
            next_addr: 0,
            contract: Addr::new(b"CBRIDGECONTRACT".to_vec()),
        }
    }

    fn generate(&mut self) -> Addr {
        self.next_addr += 1;
        Addr::new(format!("GADDRESS{:04}", self.next_addr).into_bytes())
    }

    fn mint(&mut self, token: &Addr, to: &Addr, amount: i128) {
        *self.balances.entry((token.bytes.clone(), to.bytes.clone())).or_insert(0) += amount;
    }

    fn balance(&self, token: &Addr, who: &Addr) -> i128 {
        *self.balances.get(&(token.bytes.clone(), who.bytes.clone())).unwrap_or(&0)
    }

    fn contract_balance(&self, token: &Addr) -> i128 {
        let c = Addr::new(self.contract.bytes.clone());
        self.balance(token, &c)
    }

    fn move_tokens(&mut self, token: &Addr, from: &Addr, to: &Addr, amount: i128) {
        let have = self.balance(token, from);
        assert!(have >= amount, "token transfer: balance too low");
        self.mint(token, from, -amount);
        self.mint(token, to, amount);
    }

    fn run<T>(
        &mut self,
        f: impl FnOnce(&mut FiatBridge, &mut Invocation) -> Result<T, Error>,
    ) -> Result<T, Error> {
        let mut inv = Invocation::new(self.sequence);
        let r = f(&mut self.bridge, &mut inv);
        if !self.mock_auths && !inv.auths.is_empty() {
            panic!("authorisation refused");
        }
        if r.is_ok() {
            let contract = Addr::new(self.contract.bytes.clone());
            for t in inv.transfers.iter() {
                match t {
                    Transfer::In { token, from, amount } => {
                        self.move_tokens(token, from, &contract, *amount)
                    }
                    Transfer::Out { token, to, amount } => {
                        self.move_tokens(token, &contract, to, *amount)
                    }
                }
            }
            self.events.extend(inv.events);
        }
        r
    }

    fn deposit(&mut self, from: &Addr, amount: i128, token: &Addr, reference: &[u8]) -> Result<u64, Error> {
        let (f, t, r) = (a(from), a(token), reference.to_vec());
        self.run(|b, inv| b.deposit(inv, f, amount, t, r))
    }

    fn withdraw(&mut self, to: &Addr, amount: i128, token: &Addr) -> Result<(), Error> {
        let balance = self.contract_balance(token);
        let (to, t) = (a(to), a(token));
        self.run(|b, inv| b.withdraw(inv, to, amount, t, balance))
    }

    fn request_withdrawal(&mut self, to: &Addr, amount: i128, token: &Addr) -> Result<u64, Error> {
        let (to, t) = (a(to), a(token));
        self.run(|b, inv| b.request_withdrawal(inv, to, amount, t))
    }

    fn execute_withdrawal(&mut self, id: u64, partial: Option<i128>) -> Result<(), Error> {
        let balance = match self.bridge.get_withdrawal_request(id) {
            Some(req) => self.contract_balance(&req.token),
            None => 0,
        };
        self.run(|b, inv| b.execute_withdrawal(inv, id, partial, balance))
    }
}

fn a(x: &Addr) -> Addr {
    Addr::new(x.bytes.clone())
}

fn setup_bridge(limit: i128) -> (Host, Addr, Addr) {
    let mut host = Host::new();
    let admin = host.generate();
    let token = host.generate();
    let (ad, t) = (a(&admin), a(&token));
    host.run(|b, inv| b.init(inv, ad, t, limit)).unwrap();
    (host, admin, token)
}

// ── happy-path tests ──────────────────────────────────────────────────

#[test]
fn test_deposit_and_withdraw() {
    let (mut host, _, token) = setup_bridge(500);
    let user = host.generate();
    host.mint(&token, &user, 1_000);

    host.deposit(&user, 200, &token, b"").unwrap();
    assert_eq!(host.balance(&token, &user), 800);
    assert_eq!(host.contract_balance(&token), 200);

    let req_id = host.request_withdrawal(&user, 100, &token).unwrap();
    host.execute_withdrawal(req_id, None).unwrap();

    assert_eq!(host.balance(&token, &user), 900);
    assert_eq!(host.contract_balance(&token), 100);
}

#[test]
fn test_time_locked_withdrawal() {
    let (mut host, _, token) = setup_bridge(500);
    let user = host.generate();
    host.mint(&token, &user, 1_000);
    host.deposit(&user, 200, &token, b"").unwrap();

    host.run(|b, inv| b.set_lock_period(inv, 100)).unwrap();
    assert_eq!(host.bridge.get_lock_period(), 100);

    let start_ledger = host.sequence;
    let req_id = host.request_withdrawal(&user, 100, &token).unwrap();

    let req = host.bridge.get_withdrawal_request(req_id).unwrap();
    assert_eq!(req.to, user);
    assert_eq!(req.token, token);
    assert_eq!(req.amount, 100);
    assert_eq!(req.unlock_ledger, start_ledger + 100);

    let result = host.execute_withdrawal(req_id, None);
    assert_eq!(result, Err(Error::WithdrawalLocked));

    host.sequence = start_ledger + 100;

    host.execute_withdrawal(req_id, None).unwrap();
    assert_eq!(host.balance(&token, &user), 900);
    assert_eq!(host.contract_balance(&token), 100);
    assert_eq!(host.bridge.get_withdrawal_request(req_id), None);
}

#[test]
fn test_cancel_withdrawal() {
    let (mut host, _, token) = setup_bridge(500);
    let user = host.generate();
    host.mint(&token, &user, 1_000);
    host.deposit(&user, 200, &token, b"").unwrap();

    let req_id = host.request_withdrawal(&user, 100, &token).unwrap();
    assert!(host.bridge.get_withdrawal_request(req_id).is_some());

    host.run(|b, inv| b.cancel_withdrawal(inv, req_id)).unwrap();
    assert!(host.bridge.get_withdrawal_request(req_id).is_none());

    let result = host.execute_withdrawal(req_id, None);
    assert_eq!(result, Err(Error::RequestNotFound));
}

#[test]
fn test_view_functions() {
    let (mut host, admin, token) = setup_bridge(300);
    let user = host.generate();
    host.mint(&token, &user, 500);

    assert_eq!(host.bridge.get_admin(), Ok(a(&admin)));
    assert_eq!(host.bridge.get_token(), Ok(a(&token)));
    assert_eq!(host.bridge.get_limit(), Ok(300));
    assert_eq!(host.contract_balance(&token), 0);
    assert_eq!(host.bridge.get_total_deposited(), Ok(0));

    host.deposit(&user, 200, &token, b"").unwrap();
    assert_eq!(host.contract_balance(&token), 200);
    assert_eq!(host.bridge.get_total_deposited(), Ok(200));

    host.deposit(&user, 100, &token, b"").unwrap();
    assert_eq!(host.bridge.get_total_deposited(), Ok(300));
}

#[test]
fn test_set_limit() {
    let (mut host, _, token) = setup_bridge(100);
    let t = a(&token);
    host.run(|b, inv| b.set_limit(inv, t, 500)).unwrap();
    assert_eq!(host.bridge.get_limit(), Ok(500));
    let t = a(&token);
    host.run(|b, inv| b.set_limit(inv, t, 50)).unwrap();
    assert_eq!(host.bridge.get_limit(), Ok(50));
}

#[test]
fn test_set_and_get_cooldown() {
    let (mut host, _, _) = setup_bridge(100);
    assert_eq!(host.bridge.get_cooldown(), 0);

    host.run(|b, inv| b.set_cooldown(inv, 12)).unwrap();
    assert_eq!(host.bridge.get_cooldown(), 12);

    host.run(|b, inv| b.set_cooldown(inv, 0)).unwrap();
    assert_eq!(host.bridge.get_cooldown(), 0);
}

#[test]
fn test_deposit_cooldown_blocks_rapid_second_deposit() {
    let (mut host, _, token) = setup_bridge(500);
    let user = host.generate();
    host.mint(&token, &user, 1_000);

    host.run(|b, inv| b.set_cooldown(inv, 10)).unwrap();
    let start_ledger = host.sequence;

    host.deposit(&user, 100, &token, b"").unwrap();
    assert_eq!(host.bridge.get_last_deposit_ledger(host.sequence, a(&user)), Some(start_ledger));

    // Same address, same ledger window → must fail
    let result = host.deposit(&user, 50, &token, b"");
    assert_eq!(result, Err(Error::CooldownActive));
}

#[test]
fn test_deposit_succeeds_after_cooldown_period() {
    let (mut host, _, token) = setup_bridge(500);
    let user = host.generate();
    host.mint(&token, &user, 1_000);

    host.run(|b, inv| b.set_cooldown(inv, 7)).unwrap();
    let start_ledger = host.sequence;

    host.deposit(&user, 100, &token, b"").unwrap();

    // Advance past the cooldown window
    host.sequence = start_ledger + 7;

    // Should succeed now
    host.deposit(&user, 50, &token, b"").unwrap();
}

#[test]
fn test_deposit_cooldown_is_per_address_only() {
    let (mut host, _, token) = setup_bridge(500);
    let user_a = host.generate();
    let user_b = host.generate();
    host.mint(&token, &user_a, 1_000);
    host.mint(&token, &user_b, 1_000);

    host.run(|b, inv| b.set_cooldown(inv, 10)).unwrap();

    host.deposit(&user_a, 100, &token, b"").unwrap();

    // Different address is unaffected by user_a's cooldown
    host.deposit(&user_b, 100, &token, b"").unwrap();

    // user_a still blocked
    let result = host.deposit(&user_a, 50, &token, b"");
    assert_eq!(result, Err(Error::CooldownActive));
}

#[test]
fn test_last_deposit_record_expires_with_ttl() {
    let (mut host, _, token) = setup_bridge(500);
    let user = host.generate();
    host.mint(&token, &user, 1_000);

    host.run(|b, inv| b.set_cooldown(inv, 5)).unwrap();
    let start_ledger = host.sequence;
    host.deposit(&user, 100, &token, b"").unwrap();
    assert_eq!(host.bridge.get_last_deposit_ledger(host.sequence, a(&user)), Some(start_ledger));

    // Move beyond the cooldown window
    host.sequence = start_ledger + 6;

    assert_eq!(host.bridge.get_last_deposit_ledger(host.sequence, a(&user)), None);
}

#[test]
fn test_transfer_admin() {
    let (mut host, _, _) = setup_bridge(100);
    let new_admin = host.generate();
    let n = a(&new_admin);
    host.run(|b, inv| b.transfer_admin(inv, n)).unwrap();
    // After nomination the original admin remains active
    // and the pending admin is the nominated address
    assert_ne!(host.bridge.get_admin(), Ok(a(&new_admin)));
    assert_eq!(host.bridge.get_pending_admin(), Some(new_admin));
}

#[test]
fn test_accept_admin_succeeds_for_pending() {
    let (mut host, _, _) = setup_bridge(100);
    let nominated = host.generate();

    // Nominate
    let n = a(&nominated);
    host.run(|b, inv| b.transfer_admin(inv, n)).unwrap();
    assert_eq!(host.bridge.get_pending_admin(), Some(a(&nominated)));

    // Pending admin accepts
    let n = a(&nominated);
    host.run(|b, inv| b.accept_admin(inv, n)).unwrap();

    // Now the nominated address is the active admin and pending cleared
    assert_eq!(host.bridge.get_admin(), Ok(a(&nominated)));
    assert_eq!(host.bridge.get_pending_admin(), None);
}

#[test]
fn test_cancel_admin_transfer() {
    let (mut host, admin, _) = setup_bridge(100);
    let nominated = host.generate();

    let n = a(&nominated);
    host.run(|b, inv| b.transfer_admin(inv, n)).unwrap();
    assert_eq!(host.bridge.get_pending_admin(), Some(nominated));

    host.run(|b, inv| b.cancel_admin_transfer(inv)).unwrap();
    assert_eq!(host.bridge.get_pending_admin(), None);
    // current admin unchanged
    assert_eq!(host.bridge.get_admin(), Ok(admin));
}

#[test]
fn test_accept_admin_unauthorized_when_not_pending() {
    let (mut host, _, _) = setup_bridge(100);
    let nominated = host.generate();

    // Put a nomination in place, then stop granting any authorisation.
    let n = a(&nominated);
    host.run(|b, inv| b.transfer_admin(inv, n)).unwrap();
    host.mock_auths = false;

    // A claimant other than the nominee is refused before any
    // authorisation is asked for.
    let wrong = host.generate();
    let result = host.run(|b, inv| b.accept_admin(inv, wrong));
    assert_eq!(result, Err(Error::Unauthorized));
}

#[test]
fn test_deposit_and_withdraw_events() {
    let (mut host, _, token) = setup_bridge(500);
    let user = host.generate();
    host.mint(&token, &user, 1_000);

    host.deposit(&user, 200, &token, b"").unwrap();
    assert!(host.events.iter().any(|e| matches!(e, Event::Deposit { .. })));
    assert!(host.events.contains(&Event::Deposit { from: a(&user), amount: 200 }));

    host.withdraw(&user, 100, &token).unwrap();
    assert!(host.events.iter().any(|e| matches!(e, Event::Withdraw { .. })));
    assert!(host.events.contains(&Event::Withdraw { to: a(&user), amount: 100 }));
}

// ── error-case tests ──────────────────────────────────────────────────

#[test]
fn test_over_limit_deposit() {
    let (mut host, _, token) = setup_bridge(500);
    let user = host.generate();
    host.mint(&token, &user, 1_000);

    let result = host.deposit(&user, 600, &token, b"");
    assert_eq!(result, Err(Error::ExceedsLimit));
}

#[test]
fn test_zero_amount_deposit() {
    let (mut host, _, token) = setup_bridge(500);
    let user = host.generate();

    let result = host.deposit(&user, 0, &token, b"");
    assert_eq!(result, Err(Error::ZeroAmount));
}

#[test]
fn test_insufficient_funds_withdraw() {
    let (mut host, _, token) = setup_bridge(500);
    let user = host.generate();
    host.mint(&token, &user, 1_000);
    host.deposit(&user, 100, &token, b"").unwrap();

    let req_id = host.request_withdrawal(&user, 200, &token).unwrap();
    let result = host.execute_withdrawal(req_id, None);
    assert_eq!(result, Err(Error::InsufficientFunds));
}

#[test]
fn test_double_init() {
    let (mut host, admin, token) = setup_bridge(500);
    let (ad, t) = (a(&admin), a(&token));
    let result = host.run(|b, inv| b.init(inv, ad, t, 500));
    assert_eq!(result, Err(Error::AlreadyInitialized));
}

#[test]
fn test_per_user_deposit_tracking() {
    let (mut host, _, token) = setup_bridge(1000);
    let user1 = host.generate();
    let user2 = host.generate();
    host.mint(&token, &user1, 500);
    host.mint(&token, &user2, 500);

    // Initial state
    assert_eq!(host.bridge.get_user_deposited(a(&user1)), Ok(0));
    assert_eq!(host.bridge.get_user_deposited(a(&user2)), Ok(0));

    // User1 first deposit
    host.deposit(&user1, 100, &token, b"").unwrap();
    assert_eq!(host.bridge.get_user_deposited(a(&user1)), Ok(100));
    assert_eq!(host.bridge.get_total_deposited(), Ok(100));

    // User1 second deposit
    host.deposit(&user1, 50, &token, b"").unwrap();
    assert_eq!(host.bridge.get_user_deposited(a(&user1)), Ok(150));
    assert_eq!(host.bridge.get_total_deposited(), Ok(150));

    // User2 first deposit
    host.deposit(&user2, 200, &token, b"").unwrap();
    assert_eq!(host.bridge.get_user_deposited(a(&user2)), Ok(200));
    assert_eq!(host.bridge.get_user_deposited(a(&user1)), Ok(150)); // user1 stays same
    assert_eq!(host.bridge.get_total_deposited(), Ok(350));
}

#[test]
fn test_remove_token_and_drain() {
    let (mut host, _, token) = setup_bridge(500);
    let user = host.generate();
    host.mint(&token, &user, 1_000);

    host.deposit(&user, 200, &token, b"").unwrap();
    assert_eq!(host.contract_balance(&token), 200);

    let t = a(&token);
    host.run(|b, inv| b.remove_token(inv, t)).unwrap();

    let result = host.deposit(&user, 100, &token, b"");
    assert_eq!(result, Err(Error::TokenNotWhitelisted));

    let drain_to = host.generate();
    host.withdraw(&drain_to, 200, &token).unwrap();
    assert_eq!(host.contract_balance(&token), 0);
    assert_eq!(host.balance(&token, &drain_to), 200);
}

// ── Receipt tests ───────────────────────────────────────────────────

#[test]
fn test_deposit_receipt_created() {
    let (mut host, _, token) = setup_bridge(500);
    let user = host.generate();
    host.mint(&token, &user, 1_000);

    let ref_bytes = b"paystack_ref_abc123";
    let receipt_id = host.deposit(&user, 200, &token, ref_bytes).unwrap();
    assert_eq!(receipt_id, 0);

    let receipt = host.bridge.get_receipt(receipt_id).unwrap();
    assert_eq!(receipt.id, 0);
    assert_eq!(receipt.depositor, user);
    assert_eq!(receipt.amount, 200);
    assert_eq!(receipt.reference, ref_bytes.to_vec());
    assert_eq!(receipt.ledger, host.sequence);
}

#[test]
fn test_receipt_ids_increment() {
    let (mut host, _, token) = setup_bridge(500);
    let user = host.generate();
    host.mint(&token, &user, 2_000);

    let id0 = host.deposit(&user, 100, &token, b"").unwrap();
    let id1 = host.deposit(&user, 200, &token, b"").unwrap();
    let id2 = host.deposit(&user, 50, &token, b"").unwrap();

    assert_eq!(id0, 0);
    assert_eq!(id1, 1);
    assert_eq!(id2, 2);
    assert_eq!(host.bridge.get_receipt_counter(), 3);
}

#[test]
fn test_reference_stored_exactly() {
    let (mut host, _, token) = setup_bridge(500);
    let user = host.generate();
    host.mint(&token, &user, 1_000);

    let ref_data: [u8; 32] = [0xAB; 32];
    let id = host.deposit(&user, 100, &token, &ref_data).unwrap();

    let receipt = host.bridge.get_receipt(id).unwrap();
    assert_eq!(receipt.reference, ref_data.to_vec());
    assert_eq!(receipt.reference.len(), 32);
}

#[test]
fn test_reference_too_long() {
    let (mut host, _, token) = setup_bridge(500);
    let user = host.generate();
    host.mint(&token, &user, 1_000);

    let oversized: [u8; 65] = [0xFF; 65];
    let result = host.deposit(&user, 100, &token, &oversized);
    assert_eq!(result, Err(Error::ReferenceTooLong));
}

#[test]
fn test_reference_at_max_length() {
    let (mut host, _, token) = setup_bridge(500);
    let user = host.generate();
    host.mint(&token, &user, 1_000);

    let max_ref: [u8; 64] = [0xCC; 64];
    let id = host.deposit(&user, 100, &token, &max_ref).unwrap();

    let receipt = host.bridge.get_receipt(id).unwrap();
    assert_eq!(receipt.reference.len(), 64);
}

#[test]
fn test_empty_reference_allowed() {
    let (mut host, _, token) = setup_bridge(500);
    let user = host.generate();
    host.mint(&token, &user, 1_000);

    let id = host.deposit(&user, 100, &token, b"").unwrap();
    let receipt = host.bridge.get_receipt(id).unwrap();
    assert_eq!(receipt.reference.len(), 0);
}

#[test]
fn test_get_receipts_by_depositor() {
    let (mut host, _, token) = setup_bridge(500);
    let user_a = host.generate();
    let user_b = host.generate();
    host.mint(&token, &user_a, 5_000);
    host.mint(&token, &user_b, 5_000);

    host.deposit(&user_a, 100, &token, b"").unwrap();
    host.deposit(&user_b, 200, &token, b"").unwrap();
    host.deposit(&user_a, 300, &token, b"").unwrap();
    host.deposit(&user_b, 400, &token, b"").unwrap();
    host.deposit(&user_a, 50, &token, b"").unwrap();

    let a_receipts = host.bridge.get_receipts_by_depositor(a(&user_a), 0, 10);
    assert_eq!(a_receipts.len(), 3);
    assert_eq!(a_receipts[0].amount, 100);
    assert_eq!(a_receipts[1].amount, 300);
    assert_eq!(a_receipts[2].amount, 50);

    let a_page2 = host.bridge.get_receipts_by_depositor(a(&user_a), 2, 10);
    assert_eq!(a_page2.len(), 2);
    assert_eq!(a_page2[0].amount, 300);
    assert_eq!(a_page2[1].amount, 50);

    let b_receipts = host.bridge.get_receipts_by_depositor(a(&user_b), 0, 1);
    assert_eq!(b_receipts.len(), 1);
    assert_eq!(b_receipts[0].amount, 200);
}

#[test]
fn test_receipt_issued_event() {
    let (mut host, _, token) = setup_bridge(500);
    let user = host.generate();
    host.mint(&token, &user, 1_000);

    host.deposit(&user, 200, &token, b"").unwrap();
    assert!(host.events.iter().any(|e| matches!(e, Event::ReceiptIssued { .. })));
}

#[test]
fn test_get_nonexistent_receipt() {
    let (host, _, _) = setup_bridge(500);
    assert_eq!(host.bridge.get_receipt(999), None);
}

#[test]
fn test_instance_storage_ttl_extension() {
    // 1. Setup the bridge, which runs `init`
    let (mut host, admin, token) = setup_bridge(500);

    // 2. Initial state is valid
    assert_eq!(host.bridge.get_admin(), Ok(a(&admin)));

    // 3. Advance the ledger well past thirty days of ledgers
    let current_ledger = host.sequence;
    host.sequence = current_ledger + 520_000;

    // 4. Make another state-changing call after the ledger advanced
    let t = a(&token);
    host.run(|b, inv| b.set_limit(inv, t, 1000)).unwrap();

    // 5. The bridge is still callable and its state preserved
    assert_eq!(host.bridge.get_limit(), Ok(1000));
    assert_eq!(host.bridge.get_admin(), Ok(admin));
}

// ── admin security features ────────────────────────────────────────────

#[test]
fn test_refund_deposit() {
    let limit = 1000;
    let (mut host, _admin, token) = setup_bridge(limit);
    let user = host.generate();

    host.mint(&token, &user, 500);
    let receipt_id = host.deposit(&user, 500, &token, b"test_ref").unwrap();

    let receipt_before = host.bridge.get_receipt(receipt_id).unwrap();
    assert_eq!(receipt_before.refunded, false);

    host.run(|b, inv| b.refund_deposit(inv, receipt_id)).unwrap();

    let receipt_after = host.bridge.get_receipt(receipt_id).unwrap();
    assert_eq!(receipt_after.refunded, true);

    assert_eq!(host.balance(&token, &user), 500);
}

#[test]
fn test_refund_deposit_errors() {
    let limit = 1000;
    let (mut host, _admin, token) = setup_bridge(limit);
    let user = host.generate();

    host.mint(&token, &user, 500);
    let receipt_id = host.deposit(&user, 500, &token, b"test_ref").unwrap();

    host.run(|b, inv| b.refund_deposit(inv, receipt_id)).unwrap();

    assert_eq!(
        host.run(|b, inv| b.refund_deposit(inv, receipt_id)),
        Err(Error::AlreadyRefunded)
    );

    assert_eq!(host.run(|b, inv| b.refund_deposit(inv, 999)), Err(Error::ReceiptNotFound));
}

#[test]
fn test_admin_timelock() {
    let limit = 1000;
    let (mut host, _admin, _token) = setup_bridge(limit);

    let action_type = b"test_action".to_vec();
    let payload = b"test_payload".to_vec();
    let delay_ledgers = MIN_TIMELOCK_DELAY;

    let (t, p) = (action_type.clone(), payload.clone());
    let action_id = host.run(|b, inv| b.queue_admin_action(inv, t, p, delay_ledgers)).unwrap();

    let queued_action = host.bridge.get_queued_admin_action(action_id).unwrap();
    assert_eq!(queued_action.action_type, action_type);
    assert_eq!(queued_action.payload, payload);
    assert_eq!(queued_action.target_ledger, host.sequence + delay_ledgers);

    assert_eq!(
        host.run(|b, inv| b.execute_admin_action(inv, action_id)),
        Err(Error::ActionNotReady)
    );

    // Advance past the timelock delay
    host.sequence = host.sequence + delay_ledgers + 1;

    host.run(|b, inv| b.execute_admin_action(inv, action_id)).unwrap();

    assert_eq!(host.bridge.get_queued_admin_action(action_id), None);
}

#[test]
fn test_admin_timelock_cancellation() {
    let limit = 1000;
    let (mut host, _admin, _token) = setup_bridge(limit);

    let action_type = b"test_action".to_vec();
    let payload = b"test_payload".to_vec();
    let delay_ledgers = MIN_TIMELOCK_DELAY;

    let action_id =
        host.run(|b, inv| b.queue_admin_action(inv, action_type, payload, delay_ledgers)).unwrap();

    host.run(|b, inv| b.cancel_admin_action(inv, action_id)).unwrap();

    assert_eq!(host.bridge.get_queued_admin_action(action_id), None);
}

#[test]
fn test_partial_withdrawal_execution() {
    let limit = 1000;
    let (mut host, _admin, token) = setup_bridge(limit);
    let user = host.generate();

    host.mint(&token, &user, 500);
    host.deposit(&user, 500, &token, b"").unwrap();

    let request_id = host.request_withdrawal(&user, 500, &token).unwrap();
    for _ in 0..100 {
        host.sequence += 1;
    }

    host.execute_withdrawal(request_id, Some(200)).unwrap();

    let remaining_request = host.bridge.get_withdrawal_request(request_id).unwrap();
    assert_eq!(remaining_request.amount, 300);
    assert_eq!(host.balance(&token, &user), 200);

    host.execute_withdrawal(request_id, Some(300)).unwrap();

    assert_eq!(host.bridge.get_withdrawal_request(request_id), None);
    assert_eq!(host.balance(&token, &user), 500);
}

#[test]
fn test_emergency_recovery() {
    let limit = 1000;
    let (mut host, _admin, _token) = setup_bridge(limit);
    let recovery_address = host.generate();

    let r = a(&recovery_address);
    host.run(|b, inv| b.set_emergency_recovery_address(inv, r)).unwrap();
    host.run(|b, inv| b.set_inactivity_threshold(inv, 100)).unwrap();

    for _ in 0..150 {
        host.sequence += 1;
    }

    host.run(|b, inv| b.claim_admin(inv)).unwrap();

    assert_eq!(host.bridge.get_admin(), Ok(recovery_address));
    assert_eq!(host.bridge.get_emergency_recovery_address(), None);
}

#[test]
fn test_emergency_recovery_errors() {
    let limit = 1000;
    let (mut host, _admin, _token) = setup_bridge(limit);
    let recovery_address = host.generate();

    host.run(|b, inv| b.set_emergency_recovery_address(inv, recovery_address)).unwrap();

    // Claim before the inactivity threshold
    assert_eq!(host.run(|b, inv| b.claim_admin(inv)), Err(Error::InactivityThresholdNotReached));

    // No recovery address configured
    let (mut host2, _admin2, _token2) = setup_bridge(limit);
    assert_eq!(host2.run(|b, inv| b.claim_admin(inv)), Err(Error::NoEmergencyRecoveryAddress));
}

// ── property checks over sampled inputs ──────────────────────────────

fn sample_amounts() -> Vec<i128> {
    vec![
        i128::MIN,
        i128::MIN + 1,
        -1_000_000,
        -1000,
        -1,
        0,
        1,
        2,
        499,
        999,
        1000,
        1001,
        5000,
        1_000_000_000,
        i128::MAX - 1,
    ]
}

#[test]
fn prop_deposit_rejects_invalid_amounts() {
    for amount in sample_amounts() {
        let limit = 1000;
        let (mut host, _, token) = setup_bridge(limit);
        let user = host.generate();
        host.mint(&token, &user, i128::MAX);

        let result = host.deposit(&user, amount, &token, b"");
        if amount <= 0 {
            assert_eq!(result, Err(Error::ZeroAmount));
        } else if amount > limit {
            assert_eq!(result, Err(Error::ExceedsLimit));
        } else {
            assert_eq!(result.is_ok(), true);
        }
    }
}

#[test]
fn prop_total_deposited_monotonic() {
    let runs: Vec<Vec<i128>> = vec![
        vec![1],
        vec![999, 1, 500],
        vec![3, 7, 11, 13, 17, 19, 23, 29, 31, 37, 41, 43, 47, 53, 59, 61, 67, 71, 73],
        vec![998; 19],
    ];
    for amounts in runs {
        let limit = 2000;
        let (mut host, _, token) = setup_bridge(limit);
        let user = host.generate();
        host.mint(&token, &user, i128::MAX);

        let mut previous_total = host.bridge.get_total_deposited().unwrap();
        for amount in amounts {
            host.deposit(&user, amount, &token, b"").unwrap();
            let current_total = host.bridge.get_total_deposited().unwrap();
            assert!(current_total > previous_total);
            previous_total = current_total;
        }
    }
}

#[test]
fn prop_withdraw_never_exceeds_balance() {
    for deposit_amount in [1i128, 2, 500, 999] {
        for withdraw_amount in sample_amounts() {
            let limit = 1000;
            let (mut host, _, token) = setup_bridge(limit);
            let user = host.generate();
            let drain_to = host.generate();
            host.mint(&token, &user, i128::MAX);

            host.deposit(&user, deposit_amount, &token, b"").unwrap();

            let result = host.withdraw(&drain_to, withdraw_amount, &token);
            if withdraw_amount <= 0 {
                assert_eq!(result, Err(Error::ZeroAmount));
            } else if withdraw_amount > deposit_amount {
                assert_eq!(result, Err(Error::InsufficientFunds));
            } else {
                assert_eq!(result.is_ok(), true);
            }
        }
    }
}

#[test]
fn refund_in_second_token_returns_that_token() {
    let (mut host, _admin, token) = setup_bridge(1000);
    let other = host.generate();
    let user = host.generate();
    let o = a(&other);
    host.run(|b, inv| b.add_token(inv, o, 1000)).unwrap();
    host.mint(&token, &user, 300);
    host.mint(&other, &user, 300);
    host.deposit(&user, 300, &token, b"").unwrap();
    let id = host.deposit(&user, 200, &other, b"").unwrap();

    host.run(|b, inv| b.refund_deposit(inv, id)).unwrap();

    assert_eq!(host.balance(&other, &user), 300);
    assert_eq!(host.contract_balance(&other), 0);
    assert_eq!(host.balance(&token, &user), 0);
    assert_eq!(host.contract_balance(&token), 300);
}
