use simbank::bank::audit::{flagged_events, high_value_events, scan_events, scan_record};
use simbank::bank::event::{AmlFlag, Event, EventType};
use simbank::bank::filter::AmlReport as ScanReport;
use simbank::bank::persistence::{BalanceRepo, PersistenceError};
use simbank::bank::person::PersonType;
use simbank::bank::rows::BalanceRow;
use simbank::bank::store::{event_file_name, event_number, is_event_file, needs_new_file, next_counter, EventIds};
use simbank::bank::wallet::WalletType;
use simbank::chat::config::ServerConfig;
use simbank::cli::{
    account_event_id, check_distinct_wallets, check_funds, deposit_description, opening_available,
    stored_available, transfer_description, withdrawal_description,
    audit_days, audit_filter, export_report, get_wallet_types_for_person, next_account_id, next_person_id,
    next_transaction_id, next_wallet_id, parse_aml_flag, parse_aml_flags, report_title, truncate, PersonTypeArg,
    ReportFormat, ReportType, WalletTypeArg,
};
use simbank::decimal::Amount;
use simbank::report::transactions::{TransactionReport, TransactionRow};

fn dec(m: i64, scale: u32) -> Amount {
    Amount::new(m, scale)
}

fn balance_row(available: &str, locked: &str) -> BalanceRow {
    BalanceRow {
        wallet_id: "WAL_001".to_string(),
        currency_code: "USDT".to_string(),
        available: available.to_string(),
        locked: locked.to_string(),
        updated_at: 0,
    }
}

#[test]
fn person_and_wallet_arguments_map_to_the_model() {
    assert_eq!(PersonTypeArg::Auditor.to_core_type(), PersonType::Auditor);
    assert_eq!(PersonTypeArg::Customer.to_core_type(), PersonType::Customer);
    assert_eq!(WalletTypeArg::Earn.to_core_type(), WalletType::Earn);
    assert_eq!(WalletTypeArg::Funding.to_core_type(), WalletType::Funding);
}

#[test]
fn wallets_opened_per_person_type() {
    assert_eq!(get_wallet_types_for_person(&PersonType::Customer), vec![WalletType::Spot, WalletType::Funding]);
    assert_eq!(get_wallet_types_for_person(&PersonType::Employee), vec![WalletType::Funding]);
    assert_eq!(get_wallet_types_for_person(&PersonType::Shareholder), vec![WalletType::Funding]);
    assert!(get_wallet_types_for_person(&PersonType::Manager).is_empty());
    assert!(get_wallet_types_for_person(&PersonType::Auditor).is_empty());
}

#[test]
fn numbered_identifiers() {
    assert_eq!(next_person_id(&PersonType::Customer, 0), "CUST_001");
    assert_eq!(next_person_id(&PersonType::Auditor, 41), "AUDIT_042");
    assert_eq!(next_person_id(&PersonType::Shareholder, 999), "SH_1000");
    assert_eq!(next_account_id(6), "ACC_007");
    assert_eq!(next_wallet_id(12), "WAL_013");
    assert_eq!(next_transaction_id(99), "TXN_100");
}

#[test]
fn aml_flag_words() {
    assert_eq!(parse_aml_flag("large_amount"), Some(AmlFlag::LargeAmount));
    assert_eq!(parse_aml_flag("HIGH_RISK_COUNTRY"), Some(AmlFlag::HighRiskCountry));
    assert_eq!(parse_aml_flag("Rapid_Withdrawal"), Some(AmlFlag::RapidWithdrawal));
    assert_eq!(parse_aml_flag("large amount"), None);
    let words = vec!["near_threshold".to_string(), "bogus".to_string(), "CROSS_BORDER".to_string()];
    assert_eq!(parse_aml_flags(&words), vec![AmlFlag::NearThreshold, AmlFlag::CrossBorder]);
    for f in [AmlFlag::LargeAmount, AmlFlag::NearThreshold, AmlFlag::UnusualPattern, AmlFlag::CrossBorder,
        AmlFlag::HighRiskCountry, AmlFlag::NewAccountLargeTx, AmlFlag::RapidWithdrawal] {
        assert_eq!(parse_aml_flag(f.as_str()), Some(f));
    }
}

#[test]
fn audit_filter_and_days() {
    let f = audit_filter(&Some("ACC_001".to_string()), &Some(vec!["large_amount".to_string(), "x".to_string()]));
    assert_eq!(f.account_id, Some("ACC_001".to_string()));
    assert_eq!(f.aml_flags, Some(vec![AmlFlag::LargeAmount]));
    assert!(!f.only_flagged);
    let open = audit_filter(&None, &None);
    assert!(open.account_id.is_none() && open.aml_flags.is_none());
    assert_eq!(
        audit_days(&Some("2026-01-01".to_string()), &Some("2026-01-31".to_string()), "2026-02-10"),
        Some(("2026-01-01".to_string(), "2026-01-31".to_string()))
    );
    assert_eq!(
        audit_days(&Some("2026-01-01".to_string()), &None, "2026-02-10"),
        Some(("2026-01-01".to_string(), "2026-02-10".to_string()))
    );
    assert_eq!(audit_days(&None, &Some("2026-01-31".to_string()), "2026-02-10"), None);
}

#[test]
fn truncate_cuts_bytes() {
    assert_eq!(truncate("EVT_000001", 12), "EVT_000001");
    assert_eq!(truncate("ACC_0123456789", 12), "ACC_01234...");
    assert_eq!(truncate("abcdef", 6), "abcdef");
    assert_eq!(truncate("abcdefg", 6), "abc...");
    assert_eq!(truncate("héllo wörld!", 7), "hél...");
}

#[test]
fn report_titles_and_export() {
    assert_eq!(report_title(ReportType::Aml), "AML Compliance Report");
    assert_eq!(report_title(ReportType::Transactions), "Transaction Report");
    assert_eq!(report_title(ReportType::Accounts), "Account Activity Report");
    let mut report = TransactionReport::new("T", "USD");
    report.add_transaction(TransactionRow {
        id: "TXN_1".to_string(),
        timestamp: "t".to_string(),
        tx_type: "deposit".to_string(),
        amount: "5".to_string(),
        currency: "USD".to_string(),
        account_id: "ACC_1".to_string(),
        wallet_type: "funding".to_string(),
        description: "d".to_string(),
    });
    let csv = export_report(&report, ReportFormat::Csv);
    assert!(csv.starts_with("ID,Timestamp,Type,Amount,Currency,Account,Wallet,Description\n"));
    let md = export_report(&report, ReportFormat::Markdown);
    assert!(md.contains("## Table of Contents"));
    let json = export_report(&report, ReportFormat::Json);
    assert!(json.contains("\"title\": \"T\""));
}

#[test]
fn persistence_errors() {
    let e = PersistenceError::not_found("Balance", "WAL_1:USD");
    assert!(e.is_not_found());
    assert!(!e.is_database_error());
    assert_eq!(e.message(), "Record not found: Balance with id WAL_1:USD");
    let e = PersistenceError::already_exists("Person", "CUST_001");
    assert_eq!(e.message(), "Record already exists: Person with id CUST_001");
    assert!(PersistenceError::Database("locked".to_string()).is_database_error());
    assert_eq!(
        PersistenceError::InvalidEnumValue { field: "status".to_string(), value: "x".to_string() }.message(),
        "Invalid enum value: status = x"
    );
    assert_eq!(PersistenceError::Other("plain".to_string()).message(), "plain");
}

#[test]
fn balance_credit_from_row() {
    let row = balance_row("100.50", "0");
    assert!(BalanceRepo::credited(Some(&row), &dec(50, 0)) == dec(15050, 2));
    assert!(BalanceRepo::credited(None, &dec(7, 0)) == dec(7, 0));
    let bad = balance_row("junk", "0");
    assert!(BalanceRepo::credited(Some(&bad), &dec(3, 0)) == dec(3, 0));
    let huge = Amount::from_parts(79228162514264337593543950335, 0).unwrap();
    let full = balance_row("79228162514264337593543950335", "0");
    assert!(BalanceRepo::try_credited(Some(&full), &huge).is_none());
    assert!(BalanceRepo::try_credited(Some(&row), &dec(1, 0)).unwrap() == dec(10150, 2));
}

#[test]
fn balance_debit_from_row() {
    let row = balance_row("100", "5");
    match BalanceRepo::debited(Some(&row), "WAL_001", "USDT", &dec(30, 0)) {
        Ok((available, locked)) => {
            assert!(available == dec(70, 0));
            assert!(locked == dec(5, 0));
        },
        Err(e) => panic!("debit failed: {:?}", e),
    }
    match BalanceRepo::debited(Some(&row), "WAL_001", "USDT", &dec(130, 0)) {
        Err(PersistenceError::Configuration(m)) => assert_eq!(m, "Insufficient balance: need 130, available 100"),
        other => panic!("unexpected: {:?}", other),
    }
    match BalanceRepo::debited(None, "WAL_001", "USDT", &dec(1, 0)) {
        Err(e) => assert_eq!(e, PersistenceError::NotFound { entity: "Balance".to_string(), id: "WAL_001:USDT".to_string() }),
        Ok(_) => panic!("debit of a missing balance succeeded"),
    }
    let bad = balance_row("1.2.3", "0");
    match BalanceRepo::debited(Some(&bad), "WAL_001", "USDT", &dec(1, 0)) {
        Err(PersistenceError::InvalidDecimal(m)) => assert!(!m.is_empty()),
        other => panic!("unexpected: {:?}", other),
    }
    let odd_lock = balance_row("10", "n/a");
    match BalanceRepo::try_debited(Some(&odd_lock), "W", "C", &dec(10, 0)) {
        Some(Ok((available, locked))) => {
            assert!(available == dec(0, 0));
            assert!(locked == dec(0, 0));
        },
        other => panic!("unexpected: {:?}", other),
    }
}

#[test]
fn event_store_naming() {
    assert_eq!(event_file_name("2026-01-25"), "2026-01-25.jsonl");
    assert!(is_event_file("2026-01-25.jsonl"));
    assert!(is_event_file("..jsonl"));
    assert!(!is_event_file(".jsonl"));
    assert!(!is_event_file("2026-01-25.json"));
    assert!(!is_event_file("notes.txt"));
    assert!(needs_new_file(None, "2026-01-25"));
    assert!(needs_new_file(Some("2026-01-24"), "2026-01-25"));
    assert!(!needs_new_file(Some("2026-01-25"), "2026-01-25"));
}

#[test]
fn event_ids_read_back() {
    let mut ids = EventIds::starting_at(41);
    let a = ids.next_event_id();
    let b = ids.next_event_id();
    assert_eq!(a, "EVT_000041");
    assert_eq!(b, "EVT_000042");
    assert_eq!(event_number(&a), Some(41));
    assert_eq!(event_number("EVT_1234567"), Some(1234567));
    assert_eq!(event_number("TXN_000001"), None);
    assert_eq!(event_number("EVT_12a"), None);
    let held = vec![a, b, "EVT_000007".to_string(), "other".to_string()];
    assert_eq!(next_counter(&held), 43);
    assert_eq!(next_counter(&vec![]), 1);
}

#[test]
fn auditor_selections() {
    let mut e1 = Event::deposit("EVT_1", "C", "A", dec(20000, 0), "USD");
    e1.aml_flags.push(AmlFlag::LargeAmount);
    let e2 = Event::deposit("EVT_2", "C", "A", dec(50, 0), "USD");
    let mut e3 = Event::deposit("EVT_3", "C", "A", dec(9500, 0), "USD");
    e3.aml_flags.push(AmlFlag::NearThreshold);
    let all = vec![e1, e2, e3];
    let copies = |v: &Vec<Event>| -> Vec<Event> { v.iter().map(|e| e.duplicate()).collect() };
    let flagged = flagged_events(copies(&all));
    assert_eq!(flagged.iter().map(|e| e.event_id.as_str()).collect::<Vec<_>>(), vec!["EVT_1", "EVT_3"]);
    let scanned = scan_events(copies(&all), Some(vec![AmlFlag::NearThreshold]));
    assert_eq!(scanned.len(), 1);
    assert_eq!(scanned[0].event_id, "EVT_3");
    assert_eq!(scan_events(copies(&all), None).len(), 3);
    let high = high_value_events(copies(&all), &dec(9500, 0));
    assert_eq!(high.iter().map(|e| e.event_id.as_str()).collect::<Vec<_>>(), vec!["EVT_1", "EVT_3"]);
    let report = ScanReport::generate(&all);
    let record = scan_record("EVT_000099".to_string(), "AUDIT_001", &report);
    assert_eq!(record.event_type, EventType::AuditAccess);
    assert_eq!(record.actor_role, PersonType::Auditor);
    assert_eq!(record.account_id, "SYSTEM");
    assert_eq!(record.description, Some("AML scan: 3 events analyzed, 2 flagged".to_string()));
}

#[test]
fn server_settings() {
    let c = ServerConfig::with_workers(8, true);
    assert_eq!(c.bind_addr, "0.0.0.0:8080");
    assert_eq!(c.num_workers, 8);
    assert_eq!(c.max_connections, 1_000_000);
    assert_eq!(c.connection_timeout_secs, 300);
    assert_eq!(c.heartbeat_interval_secs, 30);
    assert_eq!(c.max_message_size, 65536);
    assert_eq!(c.broadcast_channel_size, 10_000);
    assert!(c.enable_so_reuseport && c.enable_cpu_pinning);
    let d = ServerConfig::for_platform(false);
    assert!(d.num_workers >= 1);
    assert!(!d.enable_so_reuseport && !d.enable_cpu_pinning);
}

#[test]
fn wallet_command_texts() {
    assert_eq!(account_event_id("ACC_007"), "EVT_ACC_ACC_007");
    assert_eq!(deposit_description(&dec(1050, 1), "USDT", WalletType::Funding), "Deposit 105.0 USDT to funding");
    assert_eq!(withdrawal_description(&dec(5, 0), "BTC", WalletType::Spot), "Withdrawal 5 BTC from spot");
    assert_eq!(
        transfer_description(&dec(25, 2), "USD", WalletType::Funding, WalletType::Spot),
        "Transfer 0.25 USD from funding to spot"
    );
    assert_eq!(check_funds(&dec(100, 0), &dec(100, 0), "USDT"), Ok(()));
    assert_eq!(
        check_funds(&dec(50, 0), &dec(1005, 1), "USDT"),
        Err("Insufficient balance: 50 USDT available, 100.5 USDT requested".to_string())
    );
    assert_eq!(
        check_distinct_wallets(WalletType::Spot, WalletType::Spot),
        Err("Source and destination wallets must be different".to_string())
    );
    assert_eq!(check_distinct_wallets(WalletType::Spot, WalletType::Funding), Ok(()));
    assert_eq!(stored_available(Some("12.50")).to_text(), "12.50");
    assert_eq!(stored_available(Some("abc")).to_text(), "0");
    assert_eq!(stored_available(None).to_text(), "0");
    assert_eq!(opening_available(&dec(-30, 0)).to_text(), "0");
    assert_eq!(opening_available(&dec(30, 0)).to_text(), "30");
}
