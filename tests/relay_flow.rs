use stake_relay::backoff::reconnect_delay_ms;
use stake_relay::config::{Conf, Net};
use stake_relay::hex::{hash_text_of, parse_address, AddressError};
use stake_relay::ledger::{Ledger, LedgerError, MintStatus};
use stake_relay::relay::{
    notice_text_of, Delivery, EventAction, MintCall, Notice, OutcomeAction, Relay, SubmitOutcome,
};
use stake_relay::types::{Address, Amount, EventKey, Stake, StakeEvent, TxHash};

fn addr(text: &str) -> Address {
    parse_address(text).unwrap()
}

fn hash(b: u64) -> TxHash {
    TxHash { w0: b, w1: b, w2: b, w3: b }
}

fn event(account: Address, tx: TxHash, log_index: u64, block: u64, amount: u64) -> StakeEvent {
    StakeEvent {
        stake: Stake {
            account,
            token_addr: addr("0xbbbbbbbbbbbbbbbbbbbbbbbbbbbbbbbbbbbbbbbb"),
            amount: Amount { w0: 0, w1: 0, w2: 0, w3: amount },
        },
        block_number: block,
        key: EventKey { source_tx: tx, log_index },
    }
}

fn submitted(action: EventAction) -> MintCall {
    match action {
        EventAction::Submit(call) => call,
        other => panic!("expected a submission, got {:?}", other),
    }
}

fn delivered(action: OutcomeAction) -> Vec<Delivery> {
    match action {
        OutcomeAction::Deliver(ds) => ds,
        other => panic!("expected deliveries, got {:?}", other),
    }
}

const CC: u64 = 0xcccc_cccc_cccc_cccc;

#[test]
fn redelivered_event_is_submitted_once() {
    let mut relay = Relay::new(0, 3);
    let a = addr("0xaaaaaaaaaaaaaaaaaaaaaaaaaaaaaaaaaaaaaaaa");
    let ev = event(a, hash(1), 0, 10, 1000);
    let call = submitted(relay.on_event(ev));
    delivered(relay.on_outcome(call, SubmitOutcome::Mined(hash(CC)), 1));
    assert_eq!(relay.on_event(ev), EventAction::Skip);
    assert_eq!(relay.ledger_ref().len(), 1);
    assert_eq!(relay.ledger_ref().nonce(), 1);
}

#[test]
fn failed_event_is_not_submitted_again() {
    let mut relay = Relay::new(0, 3);
    let a = addr("0xaaaaaaaaaaaaaaaaaaaaaaaaaaaaaaaaaaaaaaaa");
    let ev = event(a, hash(1), 0, 10, 1000);
    let call = submitted(relay.on_event(ev));
    delivered(relay.on_outcome(call, SubmitOutcome::Reverted, 1));
    assert_eq!(relay.on_event(ev), EventAction::Skip);
}

#[test]
fn nonces_increase_and_are_not_reused() {
    let mut relay = Relay::new(5, 3);
    let a = addr("0xaaaaaaaaaaaaaaaaaaaaaaaaaaaaaaaaaaaaaaaa");
    let c1 = submitted(relay.on_event(event(a, hash(1), 0, 10, 1)));
    let c2 = submitted(relay.on_event(event(a, hash(1), 1, 10, 2)));
    let c3 = submitted(relay.on_event(event(a, hash(2), 0, 11, 3)));
    assert_eq!((c1.nonce, c2.nonce, c3.nonce), (5, 6, 7));
    // an in-flight deposit seen again keeps its nonce
    let again = submitted(relay.on_event(event(a, hash(1), 1, 10, 2)));
    assert_eq!(again.nonce, 6);
    assert_eq!(relay.ledger_ref().nonce(), 8);
}

#[test]
fn nonce_exhaustion_halts() {
    let mut relay = Relay::new(u64::MAX, 3);
    let a = addr("0xaaaaaaaaaaaaaaaaaaaaaaaaaaaaaaaaaaaaaaaa");
    assert_eq!(
        relay.on_event(event(a, hash(1), 0, 10, 1)),
        EventAction::Halt(LedgerError::NonceExhausted)
    );
}

#[test]
fn two_requests_for_one_account_get_the_same_hash() {
    let mut relay = Relay::new(0, 3);
    let a = addr("0xaaaaaaaaaaaaaaaaaaaaaaaaaaaaaaaaaaaaaaaa");
    let other = addr("0x1111111111111111111111111111111111111111");
    assert_eq!(relay.on_request(1, a), None);
    assert_eq!(relay.on_request(2, other), None);
    assert_eq!(relay.on_request(3, a), None);
    let call = submitted(relay.on_event(event(a, hash(1), 0, 10, 1000)));
    let ds = delivered(relay.on_outcome(call, SubmitOutcome::Mined(hash(CC)), 1));
    assert_eq!(
        ds,
        vec![
            Delivery { request: 1, notice: Notice::Minted(hash(CC)) },
            Delivery { request: 3, notice: Notice::Minted(hash(CC)) },
        ]
    );
    assert_eq!(relay.waiting(), 1);
}

#[test]
fn late_request_is_served_from_the_ledger() {
    let mut relay = Relay::new(0, 3);
    let a = addr("0xaaaaaaaaaaaaaaaaaaaaaaaaaaaaaaaaaaaaaaaa");
    let call = submitted(relay.on_event(event(a, hash(1), 0, 10, 1000)));
    assert_eq!(delivered(relay.on_outcome(call, SubmitOutcome::Mined(hash(CC)), 1)), vec![]);
    assert_eq!(relay.on_request(9, a), Some(hash(CC)));
    assert_eq!(relay.waiting(), 0);
}

#[test]
fn restart_resubmits_only_the_pending_deposit() {
    let a = addr("0xaaaaaaaaaaaaaaaaaaaaaaaaaaaaaaaaaaaaaaaa");
    let done = event(a, hash(1), 0, 10, 1000);
    let pending = event(a, hash(2), 0, 12, 2000);
    let mut ledger = Ledger::new(0);
    ledger.begin(done.key, a).unwrap();
    ledger.commit(done.key, hash(CC)).unwrap();
    ledger.observe(pending.key, a);
    assert_eq!(ledger.record(pending.key).unwrap().status, MintStatus::Pending);

    let cursor = Some(stake_relay::types::Cursor { block_number: 11, log_index: 0 });
    let mut relay = Relay::resume(ledger, cursor, 3);
    assert_eq!(relay.on_event(done), EventAction::Skip);
    let call = submitted(relay.on_event(pending));
    assert_eq!(call.nonce, 1);
    delivered(relay.on_outcome(call, SubmitOutcome::Mined(hash(0xdd)), 1));
    assert_eq!(relay.on_event(pending), EventAction::Skip);
    let ledger = relay.into_ledger();
    assert_eq!(ledger.len(), 2);
    assert_eq!(ledger.nonce(), 2);
    assert_eq!(ledger.record(done.key).unwrap().destination_tx, Some(hash(CC)));
    assert_eq!(ledger.record(pending.key).unwrap().destination_tx, Some(hash(0xdd)));
}

#[test]
fn revert_fails_at_once_and_tells_the_caller() {
    let mut relay = Relay::new(0, 3);
    let a = addr("0xaaaaaaaaaaaaaaaaaaaaaaaaaaaaaaaaaaaaaaaa");
    relay.on_request(4, a);
    let ev = event(a, hash(1), 0, 10, 1000);
    let call = submitted(relay.on_event(ev));
    let ds = delivered(relay.on_outcome(call, SubmitOutcome::Reverted, 1));
    assert_eq!(ds, vec![Delivery { request: 4, notice: Notice::MintFailed }]);
    let rec = relay.ledger_ref().record(ev.key).unwrap();
    assert_eq!(rec.status, MintStatus::Failed);
    assert_eq!(rec.destination_tx, None);
    assert_eq!(relay.on_request(5, a), None);
}

#[test]
fn transient_failures_retry_within_budget() {
    let mut relay = Relay::new(0, 3);
    let a = addr("0xaaaaaaaaaaaaaaaaaaaaaaaaaaaaaaaaaaaaaaaa");
    relay.on_request(4, a);
    let ev = event(a, hash(1), 0, 10, 1000);
    let call = submitted(relay.on_event(ev));
    match relay.on_outcome(call, SubmitOutcome::Timeout, 1) {
        OutcomeAction::Retry(c) => assert_eq!(c, call),
        other => panic!("expected a retry, got {:?}", other),
    }
    match relay.on_outcome(call, SubmitOutcome::RpcUnavailable, 2) {
        OutcomeAction::Retry(c) => assert_eq!(c.nonce, call.nonce),
        other => panic!("expected a retry, got {:?}", other),
    }
    let ds = delivered(relay.on_outcome(call, SubmitOutcome::Timeout, 3));
    assert_eq!(ds, vec![Delivery { request: 4, notice: Notice::MintFailed }]);
    assert_eq!(relay.ledger_ref().record(ev.key).unwrap().status, MintStatus::Failed);
}

#[test]
fn outcome_for_unknown_call_halts() {
    let mut relay = Relay::new(0, 3);
    let a = addr("0xaaaaaaaaaaaaaaaaaaaaaaaaaaaaaaaaaaaaaaaa");
    let call = MintCall {
        key: EventKey { source_tx: hash(1), log_index: 0 },
        account: a,
        token_addr: a,
        amount: Amount { w0: 0, w1: 0, w2: 0, w3: 1 },
        nonce: 0,
    };
    match relay.on_outcome(call, SubmitOutcome::Mined(hash(2)), 1) {
        OutcomeAction::Halt(e) => assert_eq!(e, LedgerError::NotSubmitted),
        other => panic!("expected a halt, got {:?}", other),
    }
}

#[test]
fn end_to_end_example() {
    let mut relay = Relay::new(0, 3);
    let watched = relay.on_request_text(1, "0xAAaaAAaaAAaaAAaaAAaaAAaaAAaaAAaaAAaaAAaa");
    assert_eq!(watched, Ok(None));
    let a = addr("0xaaaaaaaaaaaaaaaaaaaaaaaaaaaaaaaaaaaaaaaa");
    let ev = event(a, hash(1), 0, 10, 1000);
    let call = submitted(relay.on_event(ev));
    assert_eq!(call.amount, Amount { w0: 0, w1: 0, w2: 0, w3: 1000 });
    let ds = delivered(relay.on_outcome(call, SubmitOutcome::Mined(hash(CC)), 1));
    assert_eq!(ds.len(), 1);
    assert_eq!(ds[0].request, 1);
    let text = notice_text_of(ds[0].notice);
    assert_eq!(text, format!("0x{}", "c".repeat(64)));
    match relay.on_outcome(call, SubmitOutcome::Mined(hash(CC)), 1) {
        OutcomeAction::Halt(e) => assert_eq!(e, LedgerError::NotSubmitted),
        other => panic!("a settled deposit was settled again: {:?}", other),
    }
}

#[test]
fn disconnect_drops_the_request() {
    let mut relay = Relay::new(0, 3);
    let a = addr("0xaaaaaaaaaaaaaaaaaaaaaaaaaaaaaaaaaaaaaaaa");
    relay.on_request(1, a);
    relay.on_request(2, a);
    relay.on_disconnect(1);
    assert_eq!(relay.waiting(), 1);
    let call = submitted(relay.on_event(event(a, hash(1), 0, 10, 1000)));
    let ds = delivered(relay.on_outcome(call, SubmitOutcome::Mined(hash(CC)), 1));
    assert_eq!(ds, vec![Delivery { request: 2, notice: Notice::Minted(hash(CC)) }]);
}

#[test]
fn cursor_moves_past_each_event() {
    let mut relay = Relay::new(0, 3);
    let a = addr("0xaaaaaaaaaaaaaaaaaaaaaaaaaaaaaaaaaaaaaaaa");
    assert_eq!(relay.last_cursor(), None);
    let ev = event(a, hash(1), 3, 42, 1);
    relay.on_event(ev);
    relay.on_event(ev);
    let c = relay.last_cursor().unwrap();
    assert_eq!((c.block_number, c.log_index), (42, 3));
}

#[test]
fn address_parsing() {
    let lower = parse_address("0x00000001aaaaaaaaaaaaaaaa0123456789abcdef").unwrap();
    assert_eq!(lower, Address { hi: 1, mid: 0xaaaa_aaaa_aaaa_aaaa, lo: 0x0123_4567_89ab_cdef });
    let upper = parse_address("00000001AAAAAAAAAAAAAAAA0123456789ABCDEF").unwrap();
    assert_eq!(lower, upper);
    assert_eq!(parse_address(""), Err(AddressError::BadLength));
    assert_eq!(parse_address("0x"), Err(AddressError::BadLength));
    assert_eq!(parse_address("0xaaaa"), Err(AddressError::BadLength));
    assert_eq!(parse_address("0x0aaaaaaaaaaaaaaaaaaaaaaaaaaaaaaaaaaaaaaaa"), Err(AddressError::BadLength));
    assert_eq!(parse_address("0xgaaaaaaaaaaaaaaaaaaaaaaaaaaaaaaaaaaaaaaa"), Err(AddressError::BadDigit));
    assert_eq!(parse_address("0Xaaaaaaaaaaaaaaaaaaaaaaaaaaaaaaaaaaaaaaaa"), Err(AddressError::BadLength));
}

#[test]
fn malformed_request_changes_nothing() {
    let mut relay = Relay::new(0, 3);
    assert_eq!(relay.on_request_text(1, "not an address"), Err(AddressError::BadLength));
    assert_eq!(relay.waiting(), 0);
}

#[test]
fn hash_text_is_lower_hex_with_prefix() {
    let h = TxHash { w0: 0x0123_4567_89ab_cdef, w1: 0, w2: 0xffff_ffff_ffff_ffff, w3: 10 };
    assert_eq!(
        hash_text_of(h),
        "0x0123456789abcdef0000000000000000ffffffffffffffff000000000000000a"
    );
    assert_eq!(notice_text_of(Notice::MintFailed), "mint failed");
}

#[test]
fn reconnect_delays_double_up_to_the_cap() {
    assert_eq!(reconnect_delay_ms(0), 1000);
    assert_eq!(reconnect_delay_ms(1), 2000);
    assert_eq!(reconnect_delay_ms(4), 16000);
    assert_eq!(reconnect_delay_ms(5), 30000);
    assert_eq!(reconnect_delay_ms(u32::MAX), 30000);
}

#[test]
fn configured_contract_addresses() {
    let conf = Conf {
        contract_address: Net {
            sepolia: "0x00000000000000000000000000000000000000a1".to_string(),
            mumbai: "00000000000000000000000000000000000000B2".to_string(),
        },
    };
    let (s, d) = conf.contract_addresses().unwrap();
    assert_eq!(s, Address { hi: 0, mid: 0, lo: 0xa1 });
    assert_eq!(d, Address { hi: 0, mid: 0, lo: 0xb2 });
    let bad = Conf { contract_address: Net { sepolia: "0x12".to_string(), mumbai: String::new() } };
    assert_eq!(bad.contract_addresses(), Err(AddressError::BadLength));
}
