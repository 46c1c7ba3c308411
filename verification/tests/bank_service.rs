use simbank::bank::event::{AmlFlag, Event, EventMetadata, EventType};
use simbank::bank::filter::{AmlReport, EventFilter};
use simbank::bank::rows::{AccountRow, BalanceRow, PersonRow, WalletRow};
use simbank::bank::service::{
    check_deposit, check_pay_dividend, check_pay_salary, check_purchase_insurance, check_transfer, check_withdraw,
    deposit_posting, transfer_posting, AmlThresholds, BusinessError, TransactionResult,
};
use simbank::bank::store::{event_number, next_counter, parse_u64, EventIds};
use simbank::bank::wallet::WalletType;
use simbank::decimal::Amount;

fn dec(m: i64, scale: u32) -> Amount {
    Amount::new(m, scale)
}

fn account(status: &str, owner: &str) -> AccountRow {
    AccountRow { id: "ACC_001".to_string(), person_id: owner.to_string(), status: status.to_string(), created_at: 0 }
}

fn wallet(id: &str) -> WalletRow {
    WalletRow {
        id: id.to_string(),
        account_id: "ACC_001".to_string(),
        wallet_type: "funding".to_string(),
        status: "active".to_string(),
        created_at: 0,
    }
}

fn balance(available: &str) -> BalanceRow {
    BalanceRow {
        wallet_id: "WAL_001".to_string(),
        currency_code: "USDT".to_string(),
        available: available.to_string(),
        locked: "0".to_string(),
        updated_at: 0,
    }
}

fn person(kind: &str, name: &str) -> PersonRow {
    PersonRow { id: "P".to_string(), person_type: kind.to_string(), name: name.to_string(), email: None, created_at: 0 }
}

#[test]
fn test_transaction_result() {
    let result = TransactionResult::new("TXN_001", "EVT_001", dec(100, 0), "USDT").with_to_wallet(WalletType::Funding);
    assert_eq!(result.transaction_id, "TXN_001");
    assert_eq!(result.to_wallet, Some(WalletType::Funding));
}

#[test]
fn test_insufficient_balance_error() {
    let err = BusinessError::insufficient_balance(dec(100, 0), dec(50, 0));
    assert!(err.message().contains("required 100"));
    assert!(err.message().contains("available 50"));
}

#[test]
fn test_not_permitted_error() {
    let err = BusinessError::not_permitted("Auditor", "deposit");
    assert!(err.message().contains("Auditor"));
    assert!(err.message().contains("deposit"));
}

#[test]
fn deposit_checks_in_order() {
    let acc = account("active", "CUST_001");
    let w = wallet("WAL_002");
    match check_deposit("ACC_001", dec(0, 0), None, None) {
        Err(BusinessError::InvalidAmount(m)) => assert_eq!(m, "Deposit amount must be positive: 0"),
        _ => panic!("expected an invalid amount"),
    }
    match check_deposit("ACC_001", dec(5, 0), None, Some(&w)) {
        Err(BusinessError::AccountNotFound(m)) => assert_eq!(m, "ACC_001"),
        _ => panic!("expected a missing account"),
    }
    let frozen = account("frozen", "CUST_001");
    match check_deposit("ACC_001", dec(5, 0), Some(&frozen), Some(&w)) {
        Err(e) => assert_eq!(e.message(), "Account not active: ACC_001 (status: frozen)"),
        _ => panic!("expected an inactive account"),
    }
    match check_deposit("ACC_001", dec(5, 0), Some(&acc), None) {
        Err(BusinessError::WalletNotFound(m)) => assert_eq!(m, "ACC_001-Funding"),
        _ => panic!("expected a missing wallet"),
    }
    assert!(check_deposit("ACC_001", dec(5, 0), Some(&acc), Some(&w)).is_ok());
}

#[test]
fn withdraw_needs_cover() {
    let acc = account("active", "CUST_001");
    let w = wallet("WAL_002");
    let b = balance("30.5");
    match check_withdraw("ACC_001", dec(31, 0), Some(&acc), Some(&w), Some(&b)) {
        Err(e) => assert_eq!(e.message(), "Insufficient balance: required 31, available 30.5"),
        _ => panic!("expected a shortfall"),
    }
    assert!(check_withdraw("ACC_001", dec(305, 1), Some(&acc), Some(&w), Some(&b)).is_ok());
    let bad = balance("abc");
    match check_withdraw("ACC_001", dec(1, 0), Some(&acc), Some(&w), Some(&bad)) {
        Err(e) => assert_eq!(e.message(), "Insufficient balance: required 1, available 0"),
        _ => panic!("expected a shortfall"),
    }
    match check_withdraw("ACC_001", dec(1, 0), Some(&acc), Some(&w), None) {
        Err(BusinessError::InsufficientBalance { .. }) => {}
        _ => panic!("expected a shortfall"),
    }
}

#[test]
fn transfer_refuses_same_wallet() {
    let acc = account("active", "CUST_001");
    let w1 = wallet("WAL_001");
    let w2 = wallet("WAL_002");
    let b = balance("100");
    match check_transfer("ACC_001", WalletType::Spot, WalletType::Spot, dec(1, 0), Some(&acc), Some(&w1), Some(&w1), Some(&b)) {
        Err(BusinessError::InvalidAmount(m)) => assert_eq!(m, "Cannot transfer to the same wallet"),
        _ => panic!("expected a same-wallet refusal"),
    }
    match check_transfer("ACC_001", WalletType::Funding, WalletType::Margin, dec(1, 0), Some(&acc), Some(&w1), None, Some(&b)) {
        Err(BusinessError::WalletNotFound(m)) => assert_eq!(m, "ACC_001-Margin"),
        _ => panic!("expected a missing wallet"),
    }
    assert!(check_transfer("ACC_001", WalletType::Funding, WalletType::Spot, dec(100, 0), Some(&acc), Some(&w1), Some(&w2), Some(&b)).is_ok());
}

#[test]
fn salary_needs_manager_and_employee() {
    let mgr = person("manager", "Boss");
    let cust = person("customer", "Alice");
    let emp = person("employee", "Bob");
    let acc = account("active", "EMP_001");
    let w = wallet("WAL_002");
    match check_pay_salary("CUST_001", "ACC_001", dec(10, 0), Some(&cust), Some(&acc), Some(&emp), Some(&w)) {
        Err(e) => assert_eq!(e.message(), "Operation not permitted for customer: pay_salary"),
        _ => panic!("expected a refusal"),
    }
    match check_pay_salary("MGR_001", "ACC_001", dec(10, 0), Some(&mgr), Some(&acc), Some(&cust), Some(&w)) {
        Err(e) => assert_eq!(e.message(), "Operation not permitted for customer: receive_salary"),
        _ => panic!("expected a refusal"),
    }
    match check_pay_salary("MGR_001", "ACC_001", dec(10, 0), Some(&mgr), Some(&acc), None, Some(&w)) {
        Err(BusinessError::PersonNotFound(m)) => assert_eq!(m, "EMP_001"),
        _ => panic!("expected a missing person"),
    }
    assert!(check_pay_salary("MGR_001", "ACC_001", dec(10, 0), Some(&mgr), Some(&acc), Some(&emp), Some(&w)).is_ok());
}

#[test]
fn dividend_ignores_account_status() {
    let mgr = person("manager", "Boss");
    let sh = person("shareholder", "Carol");
    let frozen = account("frozen", "SH_001");
    let w = wallet("WAL_002");
    assert!(check_pay_dividend("MGR_001", "ACC_001", dec(10, 0), Some(&mgr), Some(&frozen), Some(&sh), Some(&w)).is_ok());
    match check_pay_dividend("MGR_001", "ACC_001", dec(-1, 0), Some(&mgr), Some(&frozen), Some(&sh), Some(&w)) {
        Err(BusinessError::InvalidAmount(m)) => assert_eq!(m, "Dividend must be positive: -1"),
        _ => panic!("expected an invalid amount"),
    }
}

#[test]
fn insurance_needs_cover() {
    let emp = person("employee", "Bob");
    let acc = account("active", "EMP_001");
    let w = wallet("WAL_002");
    let b = balance("50");
    match check_purchase_insurance("EMP_001", "ACC_001", dec(200, 0), Some(&acc), Some(&emp), Some(&w), Some(&b)) {
        Err(BusinessError::InsufficientBalance { .. }) => {}
        _ => panic!("expected a shortfall"),
    }
    assert!(check_purchase_insurance("EMP_001", "ACC_001", dec(50, 0), Some(&acc), Some(&emp), Some(&w), Some(&b)).is_ok());
}

#[test]
fn postings_describe_the_operation() {
    let p = deposit_posting("TXN_000001", "EVT_000001", "CUST_001", "ACC_001", "WAL_002", dec(10050, 2), "USDT");
    assert_eq!(p.transaction.description, Some("Deposit 100.50 USDT".to_string()));
    assert_eq!(p.transaction.tx_type, "deposit");
    assert_eq!(p.transaction.amount, "100.50");
    assert_eq!(p.credit_wallet, Some("WAL_002".to_string()));
    assert_eq!(p.event.event_type, EventType::Deposit);
    assert_eq!(p.result.to_wallet, Some(WalletType::Funding));
    let t = transfer_posting("TXN_2", "EVT_2", "C", "ACC_001", WalletType::Funding, WalletType::Spot, "WAL_002", "WAL_001", dec(5, 0), "BTC");
    assert_eq!(t.transaction.description, Some("Transfer 5 BTC from Funding to Spot".to_string()));
    assert_eq!(t.transaction.wallet_id, "WAL_002");
    assert_eq!(t.debit_wallet, Some("WAL_002".to_string()));
    assert_eq!(t.credit_wallet, Some("WAL_001".to_string()));
}

#[test]
fn test_aml_thresholds_default() {
    let thresholds = AmlThresholds::default();
    assert!(thresholds.large_amount == dec(10000, 0));
    assert!(thresholds.near_threshold_min == dec(9000, 0));
    assert!(thresholds.near_threshold_max == dec(9999, 0));
    assert!(thresholds.high_risk_countries.contains(&"KP".to_string()));
    assert!(thresholds.high_risk_countries.contains(&"IR".to_string()));
}

#[test]
fn test_aml_check_large_amount() {
    let thresholds = AmlThresholds::default();
    let event = Event::deposit("EVT_001", "CUST_001", "ACC_001", dec(15000, 0), "USD");
    let flags = thresholds.check_aml_flags(&event);
    assert!(flags.contains(&AmlFlag::LargeAmount));
}

#[test]
fn test_aml_check_near_threshold() {
    let thresholds = AmlThresholds::default();
    let event = Event::deposit("EVT_002", "CUST_001", "ACC_001", dec(9500, 0), "USD");
    let flags = thresholds.check_aml_flags(&event);
    assert!(flags.contains(&AmlFlag::NearThreshold));
}

#[test]
fn aml_check_location_and_order() {
    let thresholds = AmlThresholds::default();
    let event = Event::deposit("EVT_003", "CUST_001", "ACC_001", dec(20000, 0), "USD")
        .with_metadata(EventMetadata::new().with_location("IR"));
    assert_eq!(thresholds.check_aml_flags(&event), vec![AmlFlag::LargeAmount, AmlFlag::HighRiskCountry]);
    let quiet = Event::deposit("EVT_004", "CUST_001", "ACC_001", dec(10, 0), "USD");
    assert!(thresholds.check_aml_flags(&quiet).is_empty());
}

#[test]
fn test_event_filter() {
    let event1 = Event::deposit("EVT_001", "CUST_001", "ACC_001", dec(100, 0), "USDT");
    let event2 = Event::deposit("EVT_002", "CUST_002", "ACC_002", dec(200, 0), "USDT");
    let event3 = Event::withdrawal("EVT_003", "CUST_001", "ACC_001", dec(50, 0), "USDT");
    let events = vec![event1, event2, event3];
    let copy = |v: &Vec<Event>| v.iter().map(|e| e.duplicate()).collect::<Vec<Event>>();
    let filtered = EventFilter::new().account("ACC_001").apply(copy(&events));
    assert_eq!(filtered.len(), 2);
    let filtered = EventFilter::new().actor("CUST_002").apply(copy(&events));
    assert_eq!(filtered.len(), 1);
    let filtered = EventFilter::new().event_types(vec![EventType::Withdrawal]).apply(copy(&events));
    assert_eq!(filtered.len(), 1);
    let filtered = EventFilter::new().amount_range(dec(60, 0), dec(150, 0)).apply(copy(&events));
    assert_eq!(filtered.len(), 1);
    assert_eq!(filtered[0].event_id, "EVT_001");
}

#[test]
fn filter_by_flags() {
    let e1 = Event::deposit("EVT_1", "C", "A", dec(1, 0), "USD").with_aml_flag(AmlFlag::CrossBorder);
    let e2 = Event::deposit("EVT_2", "C", "A", dec(1, 0), "USD");
    let e3 = Event::deposit("EVT_3", "C", "A", dec(1, 0), "USD").with_aml_flag(AmlFlag::LargeAmount);
    let out = EventFilter::new().aml_flags(vec![AmlFlag::LargeAmount]).apply(vec![e1.duplicate(), e2.duplicate(), e3.duplicate()]);
    assert_eq!(out.len(), 1);
    assert_eq!(out[0].event_id, "EVT_3");
    let out = EventFilter::new().flagged_only().apply(vec![e1, e2, e3]);
    assert_eq!(out.len(), 2);
}

#[test]
fn test_aml_report() {
    let event1 = Event::deposit("EVT_001", "CUST_001", "ACC_001", dec(100000, 0), "USDT").with_aml_flag(AmlFlag::LargeAmount);
    let event2 = Event::deposit("EVT_002", "CUST_002", "ACC_002", dec(200, 0), "USDT").with_aml_flag(AmlFlag::UnusualPattern);
    let event3 = Event::withdrawal("EVT_003", "CUST_001", "ACC_001", dec(50, 0), "USDT");
    let events = vec![event1, event2, event3];
    let report = AmlReport::generate(&events);
    assert_eq!(report.total_events, 3);
    assert_eq!(report.flagged_events, 2);
    assert_eq!(report.large_amount_count, 1);
    assert_eq!(report.unusual_pattern_count, 1);
    assert_eq!(report.events_by_flag.len(), 2);
    assert_eq!(report.events_by_flag[0].flag, "large_amount");
    assert_eq!(report.events_by_flag[1].events[0].event_id, "EVT_002");
}

#[test]
fn test_event_store_counter() {
    let mut ids = EventIds::starting_at(1);
    assert_eq!(ids.next_event_id(), "EVT_000001");
    assert_eq!(ids.next_event_id(), "EVT_000002");
    assert_eq!(ids.next_event_id(), "EVT_000003");
}

#[test]
fn test_event_store_reload_counter() {
    let ids = vec!["EVT_000001".to_string(), "EVT_000002".to_string()];
    let mut next = EventIds::starting_at(next_counter(&ids));
    assert_eq!(next.next_event_id(), "EVT_000003");
}

#[test]
fn counter_skips_foreign_ids() {
    let ids = vec!["EVT_000007".to_string(), "TXN_000099".to_string(), "EVT_x".to_string(), "EVT_+12".to_string()];
    assert_eq!(next_counter(&ids), 13);
    assert_eq!(next_counter(&vec![]), 1);
    assert_eq!(event_number("EVT_"), None);
    assert_eq!(parse_u64("18446744073709551615"), Some(u64::MAX));
    assert_eq!(parse_u64("18446744073709551616"), None);
    assert_eq!(parse_u64(" 1"), None);
}

#[test]
fn insurance_is_paid_from_the_buyers_own_account() {
    let emp = person("employee", "Bob");
    let acc = account("active", "EMP_001");
    let w = wallet("WAL_002");
    let b = balance("500");
    match check_purchase_insurance("EMP_002", "ACC_001", dec(50, 0), Some(&acc), Some(&emp), Some(&w), Some(&b)) {
        Err(BusinessError::OperationNotPermitted { person_type, operation }) => {
            assert_eq!(person_type, "employee");
            assert_eq!(operation, "purchase_insurance");
        }
        _ => panic!("expected a refusal"),
    }
}
