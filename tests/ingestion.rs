use netflow_monitor::amount::Amount;
use netflow_monitor::netflow::Netflow;
use netflow_monitor::registry::{Address, ConfigError, Registry};
use netflow_monitor::store::{Ledger, StoreError};
use netflow_monitor::subscriber::{
    plan_log, process_log, LogOutcome, LogPlan, Reconnect, SubscriptionAction, SubscriptionEvent,
};
use netflow_monitor::transfer::{classify, decode, transfer_topic, DecodeError, RawLog};

const BINANCE: &str = "0xAAAAAAAAAAAAAAAAAAAAAAAAAAAAAAAAAAAAAAAA";
const OTHER_B: &str = "0xbbbbbbbbbbbbbbbbbbbbbbbbbbbbbbbbbbbbbbbb";
const OTHER_C: &str = "0xcccccccccccccccccccccccccccccccccccccccc";

fn registry() -> Registry {
    Registry::new("binance", &vec![BINANCE.to_string()]).unwrap()
}

fn topic(addr: &str) -> [u8; 32] {
    let a = Address::parse(addr).unwrap();
    let mut t = [0u8; 32];
    t[12..].copy_from_slice(&a.bytes);
    t
}

fn amount_data(v: u128) -> Vec<u8> {
    let mut d = vec![0u8; 16];
    d.extend_from_slice(&v.to_be_bytes());
    d
}

fn transfer_log(from: &str, to: &str, data: Vec<u8>) -> RawLog {
    RawLog {
        topics: vec![[0xddu8; 32], topic(from), topic(to)],
        data,
        block_number: 123456,
        tx_hash: [7u8; 32],
    }
}

fn latest_texts(ledger: &Ledger) -> Option<(String, String, String)> {
    ledger.latest(&"binance".to_string()).map(|s| {
        (s.inflow.to_decimal(), s.outflow.to_decimal(), s.cumulative.to_decimal())
    })
}

#[test]
fn deposit_to_exchange_is_inflow() {
    let reg = registry();
    let mut ledger = Ledger::new();
    let log = transfer_log(OTHER_B, BINANCE, amount_data(1000));
    assert_eq!(process_log(&mut ledger, &reg, &log), LogOutcome::Recorded);
    assert_eq!(ledger.transfers.len(), 1);
    let t = &ledger.transfers[0];
    assert_eq!(t.id, 1);
    assert_eq!(t.amount.to_decimal(), "1000");
    assert_eq!(t.from.to_text(), OTHER_B);
    assert_eq!(t.to.to_text(), BINANCE.to_lowercase());
    assert_eq!(t.block_number, 123456);
    assert_eq!(
        latest_texts(&ledger),
        Some(("1000".to_string(), "0".to_string(), "1000".to_string()))
    );
}

#[test]
fn withdrawal_from_exchange_is_outflow() {
    let reg = registry();
    let mut ledger = Ledger::new();
    process_log(&mut ledger, &reg, &transfer_log(OTHER_B, BINANCE, amount_data(1000)));
    let out = transfer_log(BINANCE, OTHER_C, amount_data(200));
    assert_eq!(process_log(&mut ledger, &reg, &out), LogOutcome::Recorded);
    assert_eq!(
        latest_texts(&ledger),
        Some(("0".to_string(), "200".to_string(), "800".to_string()))
    );
    assert_eq!(ledger.snapshots[1].id, 2);
}

#[test]
fn withdrawal_can_make_netflow_negative() {
    let reg = registry();
    let mut ledger = Ledger::new();
    process_log(&mut ledger, &reg, &transfer_log(BINANCE, OTHER_C, amount_data(200)));
    assert_eq!(
        latest_texts(&ledger),
        Some(("0".to_string(), "200".to_string(), "-200".to_string()))
    );
}

#[test]
fn unrelated_transfer_writes_nothing() {
    let reg = registry();
    let mut ledger = Ledger::new();
    process_log(&mut ledger, &reg, &transfer_log(OTHER_B, BINANCE, amount_data(1000)));
    let before = latest_texts(&ledger);
    let log = transfer_log(OTHER_B, OTHER_C, amount_data(5));
    assert_eq!(process_log(&mut ledger, &reg, &log), LogOutcome::Irrelevant);
    assert_eq!(ledger.transfers.len(), 1);
    assert_eq!(ledger.snapshots.len(), 1);
    assert_eq!(latest_texts(&ledger), before);
}

#[test]
fn unrelated_transfer_classifies_as_zero() {
    let reg = registry();
    let e = decode(&transfer_log(OTHER_B, OTHER_C, amount_data(5))).unwrap();
    let f = classify(&e, &reg);
    assert!(f.inflow.is_zero() && f.outflow.is_zero());
    assert!(f.is_irrelevant());
    assert_eq!(f.label, "binance");
}

#[test]
fn self_transfer_counts_as_inflow() {
    let reg = registry();
    let e = decode(&transfer_log(BINANCE, BINANCE, amount_data(9))).unwrap();
    let f = classify(&e, &reg);
    assert_eq!(f.inflow.to_decimal(), "9");
    assert!(f.outflow.is_zero());
}

#[test]
fn short_log_is_rejected_without_writing() {
    let reg = registry();
    let mut ledger = Ledger::new();
    let mut log = transfer_log(OTHER_B, BINANCE, amount_data(1000));
    log.topics.truncate(2);
    assert_eq!(decode(&log), Err(DecodeError::MalformedLog));
    assert_eq!(
        process_log(&mut ledger, &reg, &log),
        LogOutcome::Skipped(DecodeError::MalformedLog)
    );
    assert!(ledger.transfers.is_empty() && ledger.snapshots.is_empty());
}

#[test]
fn wide_payload_is_rejected() {
    let log = transfer_log(OTHER_B, BINANCE, vec![1u8; 33]);
    assert_eq!(decode(&log), Err(DecodeError::MalformedLog));
}

#[test]
fn wide_zero_padded_payload_is_accepted() {
    let mut data = vec![0u8; 40];
    data.extend_from_slice(&amount_data(1000));
    let e = decode(&transfer_log(OTHER_B, BINANCE, data)).unwrap();
    assert_eq!(e.amount.to_decimal(), "1000");
}

#[test]
fn padding_bytes_of_topics_are_ignored() {
    let mut log = transfer_log(OTHER_B, BINANCE, amount_data(1));
    log.topics[2][0] = 0xff;
    log.topics[2][11] = 0x12;
    let e = decode(&log).unwrap();
    assert_eq!(e.to.to_text(), BINANCE.to_lowercase());
}

#[test]
fn large_amount_is_kept_exactly() {
    // 2^200 + 5.
    let mut data = vec![0u8; 32];
    data[6] = 1;
    data[31] = 5;
    let reg = registry();
    let mut ledger = Ledger::new();
    assert_eq!(
        process_log(&mut ledger, &reg, &transfer_log(OTHER_B, BINANCE, data)),
        LogOutcome::Recorded
    );
    let text = "1606938044258990275541962092341162602522202993782792835301381";
    let s = ledger.latest(&"binance".to_string()).unwrap();
    assert_eq!(s.inflow.to_decimal(), text);
    assert_eq!(Amount::parse_decimal(text), Some(s.inflow));
    assert_eq!(s.cumulative.to_decimal(), text);
}

#[test]
fn cumulative_is_sum_of_deltas() {
    let reg = registry();
    let mut ledger = Ledger::new();
    let steps: [(&str, &str, u128); 4] = [
        (OTHER_B, BINANCE, 500),
        (BINANCE, OTHER_C, 70),
        (OTHER_C, BINANCE, 1),
        (BINANCE, OTHER_B, 1000),
    ];
    for (from, to, v) in steps.iter() {
        assert_eq!(
            process_log(&mut ledger, &reg, &transfer_log(from, to, amount_data(*v))),
            LogOutcome::Recorded
        );
    }
    let got: Vec<String> = ledger.snapshots.iter().map(|s| s.cumulative.to_decimal()).collect();
    assert_eq!(got, vec!["500", "430", "431", "-569"]);
}

#[test]
fn cumulative_overflow_leaves_book_unchanged() {
    let reg = registry();
    let mut ledger = Ledger::new();
    let max = vec![0xffu8; 32];
    let log = transfer_log(OTHER_B, BINANCE, max);
    assert_eq!(process_log(&mut ledger, &reg, &log), LogOutcome::Recorded);
    assert_eq!(
        process_log(&mut ledger, &reg, &log),
        LogOutcome::StoreFailed(StoreError::Overflow)
    );
    assert_eq!(ledger.transfers.len(), 1);
    assert_eq!(ledger.snapshots.len(), 1);
}

#[test]
fn latest_of_unknown_label_is_none() {
    let ledger = Ledger::new();
    assert!(ledger.latest(&"kraken".to_string()).is_none());
    assert_eq!(ledger.cumulative(&"kraken".to_string()).to_decimal(), "0");
}

#[test]
fn registry_membership_ignores_case() {
    let reg = Registry::new("binance", &vec![OTHER_B.to_uppercase().replace("0X", "0x")]).unwrap();
    assert!(reg.contains(&Address::parse(OTHER_B).unwrap()));
    assert!(!reg.contains(&Address::parse(OTHER_C).unwrap()));
    assert_eq!(reg.label(), "binance");
}

#[test]
fn malformed_address_fails_construction() {
    let entries = vec![BINANCE.to_string(), "0x1234".to_string()];
    assert_eq!(Registry::new("binance", &entries).err(), Some(ConfigError::MalformedAddress(1)));
    let bad_digit = format!("0x{}", "g".repeat(40));
    assert_eq!(Registry::new("x", &vec![bad_digit]).err(), Some(ConfigError::MalformedAddress(0)));
    let no_prefix = "aa".repeat(21);
    assert!(Address::parse(&no_prefix).is_none());
}

#[test]
fn address_text_is_lower_case_hex() {
    let a = Address::parse("0X00FF10aB00000000000000000000000000000001").unwrap();
    assert_eq!(a.bytes[1], 0xff);
    assert_eq!(a.to_text(), "0x00ff10ab00000000000000000000000000000001");
}

#[test]
fn netflow_text_round_trip() {
    let n = Netflow::parse("-12345").unwrap();
    assert!(n.negative);
    assert_eq!(n.to_decimal(), "-12345");
    assert_eq!(Netflow::parse("-0").unwrap().to_decimal(), "0");
    assert!(Netflow::parse("").is_none());
    assert!(Netflow::parse("-").is_none());
    assert!(Netflow::parse("12a").is_none());
    assert_eq!(Netflow::parse("007").unwrap().to_decimal(), "7");
}

#[test]
fn netflow_addition() {
    let a = Netflow::parse("-300").unwrap();
    let b = Netflow::parse("100").unwrap();
    assert_eq!(a.checked_add(b).unwrap().to_decimal(), "-200");
    let d = Netflow::from_difference(Amount::parse_decimal("5").unwrap(), Amount::parse_decimal("8").unwrap());
    assert_eq!(d.to_decimal(), "-3");
    let big = Netflow::parse(&Amount { limbs: [u64::MAX; 4] }.to_decimal()).unwrap();
    assert!(big.checked_add(Netflow::parse("1").unwrap()).is_none());
}

#[test]
fn amount_parsing_bounds() {
    let max = "115792089237316195423570985008687907853269984665640564039457584007913129639935";
    assert_eq!(Amount::parse_decimal(max), Some(Amount { limbs: [u64::MAX; 4] }));
    let over = "115792089237316195423570985008687907853269984665640564039457584007913129639936";
    assert!(Amount::parse_decimal(over).is_none());
    assert!(Amount::parse_decimal("").is_none());
    assert_eq!(Amount::from_be_bytes(&[1, 0]).unwrap().to_decimal(), "256");
    assert_eq!(Amount::from_be_bytes(&[0u8; 33]), Some(Amount::zero()));
    let mut over = vec![0u8; 33];
    over[0] = 1;
    assert!(Amount::from_be_bytes(&over).is_none());
}

#[test]
fn two_failures_then_success_backs_off() {
    let mut r = Reconnect::new(500, 60_000, 0);
    assert_eq!(r.start(), SubscriptionAction::Subscribe { delay_ms: 0 });
    assert_eq!(r.on_event(SubscriptionEvent::OpenFailed, 0), SubscriptionAction::Subscribe { delay_ms: 500 });
    assert_eq!(r.on_event(SubscriptionEvent::OpenFailed, 0), SubscriptionAction::Subscribe { delay_ms: 1000 });
    assert_eq!(r.on_event(SubscriptionEvent::Opened, 0), SubscriptionAction::Listen);
    assert!(r.listening);
    assert_eq!(r.failures, 0);
    assert_eq!(r.on_event(SubscriptionEvent::StreamEnded, 0), SubscriptionAction::Subscribe { delay_ms: 500 });
}

#[test]
fn jitter_is_added_and_clipped() {
    let mut r = Reconnect::new(500, 60_000, 100);
    assert_eq!(r.on_event(SubscriptionEvent::OpenFailed, 37), SubscriptionAction::Subscribe { delay_ms: 537 });
    assert_eq!(r.on_event(SubscriptionEvent::OpenFailed, 5000), SubscriptionAction::Subscribe { delay_ms: 1100 });
}

#[test]
fn plan_of_each_kind_of_log() {
    let reg = registry();
    let mut short = transfer_log(OTHER_B, BINANCE, amount_data(1));
    short.topics.truncate(2);
    assert_eq!(plan_log(&reg, &short), LogPlan::Skip(DecodeError::MalformedLog));
    assert_eq!(plan_log(&reg, &transfer_log(OTHER_B, OTHER_C, amount_data(1))), LogPlan::Ignore);
    assert_eq!(plan_log(&reg, &transfer_log(OTHER_B, BINANCE, amount_data(0))), LogPlan::Ignore);
    match plan_log(&reg, &transfer_log(BINANCE, OTHER_C, amount_data(200))) {
        LogPlan::Write(e, f) => {
            assert_eq!(e.amount.to_decimal(), "200");
            assert!(f.inflow.is_zero());
            assert_eq!(f.outflow.to_decimal(), "200");
        }
        other => panic!("expected a write, got {:?}", other),
    }
}

#[test]
fn deposit_after_prior_netflow_accumulates() {
    let reg = registry();
    let mut ledger = Ledger::new();
    process_log(&mut ledger, &reg, &transfer_log(OTHER_B, BINANCE, amount_data(500)));
    process_log(&mut ledger, &reg, &transfer_log(OTHER_B, BINANCE, amount_data(1000)));
    assert_eq!(
        latest_texts(&ledger),
        Some(("1000".to_string(), "0".to_string(), "1500".to_string()))
    );
    process_log(&mut ledger, &reg, &transfer_log(BINANCE, OTHER_C, amount_data(200)));
    assert_eq!(
        latest_texts(&ledger),
        Some(("0".to_string(), "200".to_string(), "1300".to_string()))
    );
}

#[test]
fn backoff_stops_at_cap() {
    let mut r = Reconnect::new(1000, 5000, 0);
    let mut delays = Vec::new();
    for _ in 0..5 {
        if let SubscriptionAction::Subscribe { delay_ms } = r.on_event(SubscriptionEvent::OpenFailed, 0) {
            delays.push(delay_ms);
        }
    }
    assert_eq!(delays, vec![1000, 2000, 4000, 5000, 5000]);
}

#[test]
fn transfer_topic_is_event_signature_digest() {
    let expected = "ddf252ad1be2c89b69c2b068fc378daa952ba7f163c4a11628f55a4df523b3ef";
    let got: String = transfer_topic().iter().map(|b| format!("{:02x}", b)).collect();
    assert_eq!(got, expected);
}
