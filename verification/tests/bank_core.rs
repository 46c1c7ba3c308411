use simbank::bank::account::{Account, AccountStatus};
use simbank::bank::error::CoreError;
use simbank::bank::event::{AmlFlag, Event, EventMetadata, EventType};
use simbank::bank::money::{Currency, Money};
use simbank::bank::person::{Person, PersonType};
use simbank::bank::wallet::{Balance, Wallet, WalletType};
use simbank::decimal::Amount;

fn dec(m: i64, scale: u32) -> Amount {
    Amount::new(m, scale)
}

#[test]
fn test_currency_presets() {
    let usd = Currency::usd();
    assert_eq!(usd.code, "USD");
    assert_eq!(usd.decimals, 2);
    let btc = Currency::btc();
    assert_eq!(btc.code, "BTC");
    assert_eq!(btc.decimals, 8);
    let eth = Currency::eth();
    assert_eq!(eth.code, "ETH");
    assert_eq!(eth.decimals, 18);
}

#[test]
fn test_money_add() {
    let usd = Currency::usd();
    let a = Money::new(dec(10050, 2), usd.clone());
    let b = Money::new(dec(5025, 2), usd);
    let result = a.add(&b);
    assert!(result.amount == dec(15075, 2));
}

#[test]
fn test_money_sub() {
    let usd = Currency::usd();
    let a = Money::new(dec(10000, 2), usd.clone());
    let b = Money::new(dec(3050, 2), usd);
    let result = a.sub(&b);
    assert!(result.amount == dec(6950, 2));
}

#[test]
fn test_money_display() {
    let money = Money::new(dec(123456, 2), Currency::usd());
    assert_eq!(money.display_text(), "1234.56 USD");
}

#[test]
fn test_high_precision_eth() {
    let eth = Currency::eth();
    let wei = Money::new(dec(1, 18), eth);
    assert!(wei.is_positive());
    assert!(wei.amount == dec(1, 18));
}

#[test]
fn test_person_type_str() {
    assert_eq!(PersonType::Customer.as_str(), "customer");
    assert_eq!(PersonType::Auditor.as_str(), "auditor");
    assert_eq!(PersonType::from_str("CUSTOMER"), Some(PersonType::Customer));
    assert_eq!(PersonType::from_str("unknown"), None);
}

#[test]
fn test_person_type_permissions() {
    assert!(PersonType::Customer.has_account());
    assert!(PersonType::Employee.has_account());
    assert!(PersonType::Shareholder.has_account());
    assert!(!PersonType::Manager.has_account());
    assert!(!PersonType::Auditor.has_account());
    assert!(PersonType::Manager.can_approve());
    assert!(!PersonType::Customer.can_approve());
    assert!(PersonType::Auditor.can_audit());
    assert!(PersonType::Manager.can_audit());
    assert!(!PersonType::Customer.can_audit());
}

#[test]
fn test_person_creation() {
    let alice = Person::customer("CUST_001", "Alice");
    assert_eq!(alice.id, "CUST_001");
    assert_eq!(alice.person_type, PersonType::Customer);
    assert!(alice.needs_account());
    let deloitte = Person::auditor("AUDIT_001", "Deloitte");
    assert_eq!(deloitte.person_type, PersonType::Auditor);
    assert!(!deloitte.needs_account());
}

#[test]
fn test_person_with_email() {
    let bob = Person::employee("EMP_001", "Bob").with_email("bob@simbank.com".to_string());
    assert_eq!(bob.email, Some("bob@simbank.com".to_string()));
}

#[test]
fn test_person_display() {
    let person = Person::customer("CUST_001", "Alice");
    assert_eq!(person.display_text(), "Alice (CUST_001 - customer)");
}

#[test]
fn test_wallet_type_str() {
    assert_eq!(WalletType::Spot.as_str(), "spot");
    assert_eq!(WalletType::Funding.as_str(), "funding");
    assert_eq!(WalletType::from_str("SPOT"), Some(WalletType::Spot));
    assert_eq!(WalletType::from_str("unknown"), None);
}

#[test]
fn test_balance_operations() {
    let mut balance = Balance::new(Currency::usd());
    assert!(balance.available == dec(0, 0));
    balance.credit(dec(100, 0));
    assert!(balance.available == dec(100, 0));
    assert!(balance.can_spend(dec(50, 0)));
    assert!(!balance.can_spend(dec(150, 0)));
    assert!(balance.debit(dec(30, 0)).is_ok());
    assert!(balance.available == dec(70, 0));
    assert!(balance.debit(dec(100, 0)).is_err());
}

#[test]
fn test_wallet_multi_currency() {
    let mut wallet = Wallet::new("WAL_001".to_string(), "ACC_001".to_string(), WalletType::Spot);
    wallet.credit(Currency::usd(), dec(100, 0));
    wallet.credit(Currency::btc(), dec(5, 1));
    wallet.credit(Currency::usd(), dec(50, 0));
    assert!(wallet.get_balance("USD").unwrap().available == dec(150, 0));
    assert!(wallet.get_balance("BTC").unwrap().available == dec(5, 1));
}

#[test]
fn wallet_debit_reports_shortfall() {
    let mut wallet = Wallet::new("WAL_001".to_string(), "ACC_001".to_string(), WalletType::Funding);
    wallet.credit(Currency::usdt(), dec(40, 0));
    match wallet.debit("USDT", dec(100, 0)) {
        Err(short) => assert!(short == dec(60, 0)),
        Ok(()) => panic!("debit should fail"),
    }
    match wallet.debit("BTC", dec(1, 0)) {
        Err(short) => assert!(short == dec(1, 0)),
        Ok(()) => panic!("debit should fail"),
    }
    assert!(wallet.debit("USDT", dec(40, 0)).is_ok());
    assert!(wallet.get_balance("USDT").unwrap().available == dec(0, 0));
}

#[test]
fn balance_credit_then_debit_restores() {
    let mut balance = Balance::with_amount(Currency::usd(), dec(1234, 2));
    balance.credit(dec(5, 1));
    assert!(balance.debit(dec(5, 1)).is_ok());
    assert!(balance.available == dec(1234, 2));
}

#[test]
fn test_account_creation() {
    let account = Account::new("ACC_001".to_string(), "CUST_001".to_string());
    assert_eq!(account.id, "ACC_001");
    assert_eq!(account.person_id, "CUST_001");
    assert_eq!(account.status, AccountStatus::Active);
    assert!(account.is_active());
    assert_eq!(account.wallets.len(), 2);
    assert!(account.spot().is_some());
    assert!(account.funding().is_some());
    assert_eq!(account.spot().unwrap().id, "WAL_001");
    assert_eq!(account.funding().unwrap().id, "WAL_002");
}

#[test]
fn test_account_from_person() {
    let alice = Person::customer("CUST_001", "Alice");
    let account = Account::from_person("ACC_001", &alice);
    assert_eq!(account.person_id, "CUST_001");
}

#[test]
fn test_account_wallet_operations() {
    let mut account = Account::new("ACC_001".to_string(), "CUST_001".to_string());
    if let Some(funding) = account.funding_mut() {
        funding.credit(Currency::usdt(), dec(1000, 0));
    }
    let balance = account.funding().and_then(|w| w.get_balance("USDT")).map(|b| b.available);
    assert!(balance == Some(dec(1000, 0)));
}

#[test]
fn test_account_status_transitions() {
    let mut account = Account::new("ACC_001".to_string(), "CUST_001".to_string());
    assert!(account.is_active());
    account.freeze();
    assert_eq!(account.status, AccountStatus::Frozen);
    assert!(!account.is_active());
    account.activate();
    assert!(account.is_active());
    account.close();
    assert_eq!(account.status, AccountStatus::Closed);
}

#[test]
fn test_account_id_generation() {
    assert_eq!(Account::generate_id(1), "ACC_001");
    assert_eq!(Account::generate_id(42), "ACC_042");
    assert_eq!(Account::generate_id(999), "ACC_999");
    assert_eq!(Account::generate_id(1234), "ACC_1234");
}

#[test]
fn account_status_codes() {
    assert_eq!(AccountStatus::Frozen.as_str(), "frozen");
    assert_eq!(AccountStatus::from_str("Closed"), Some(AccountStatus::Closed));
    assert_eq!(AccountStatus::from_str("gone"), None);
}

#[test]
fn test_event_deposit() {
    let event = Event::deposit("EVT_001", "CUST_001", "ACC_001", dec(1000, 0), "USDT");
    assert_eq!(event.event_id, "EVT_001");
    assert_eq!(event.event_type, EventType::Deposit);
    assert_eq!(event.to_wallet, Some(WalletType::Funding));
    assert!(event.amount == Some(dec(1000, 0)));
    assert_eq!(event.currency, Some("USDT".to_string()));
}

#[test]
fn test_event_internal_transfer() {
    let event = Event::internal_transfer(
        "EVT_002", "CUST_001", "ACC_001", WalletType::Funding, WalletType::Spot, dec(500, 0), "USDT",
    );
    assert_eq!(event.event_type, EventType::InternalTransfer);
    assert_eq!(event.from_wallet, Some(WalletType::Funding));
    assert_eq!(event.to_wallet, Some(WalletType::Spot));
}

#[test]
fn test_event_with_aml_flags() {
    let event = Event::deposit("EVT_003", "CUST_001", "ACC_001", dec(15000, 0), "USD")
        .with_aml_flag(AmlFlag::LargeAmount)
        .with_description("Large deposit");
    assert!(event.has_aml_flags());
    assert_eq!(event.aml_flags.len(), 1);
    assert_eq!(event.aml_flags[0], AmlFlag::LargeAmount);
}

#[test]
fn test_event_with_metadata() {
    let metadata = EventMetadata::new().with_ip("192.168.1.1").with_location("VN").with_device("mobile_ios");
    let event = Event::deposit("EVT_004", "CUST_001", "ACC_001", dec(100, 0), "USDT").with_metadata(metadata);
    assert_eq!(event.metadata.ip_address, Some("192.168.1.1".to_string()));
    assert_eq!(event.metadata.location, Some("VN".to_string()));
}

#[test]
fn test_event_id_generation() {
    assert_eq!(Event::generate_id(1), "EVT_000001");
    assert_eq!(Event::generate_id(999999), "EVT_999999");
    assert_eq!(Event::generate_id(1234567), "EVT_1234567");
}

#[test]
fn event_type_and_flag_codes() {
    assert_eq!(EventType::AuditReportGenerated.as_str(), "audit_report_generated");
    assert_eq!(AmlFlag::NewAccountLargeTx.as_str(), "new_account_large_tx");
}

#[test]
fn test_error_display() {
    let err = CoreError::InsufficientBalance { needed: dec(1000, 0), available: dec(500, 0) };
    assert_eq!(err.message(), "Insufficient balance: need 1000, available 500");
    let err = CoreError::AccountNotFound("ACC_001".to_string());
    assert_eq!(err.message(), "Account not found: ACC_001");
}

#[test]
fn test_error_checks() {
    let err = CoreError::InsufficientBalance { needed: dec(100, 0), available: dec(50, 0) };
    assert!(err.is_insufficient_balance());
    let err = CoreError::PermissionDenied("test".to_string());
    assert!(err.is_permission_error());
    let err = CoreError::AmlBlocked("suspicious".to_string());
    assert!(err.is_aml_error());
}

#[test]
fn test_wallet_not_found() {
    let err = CoreError::WalletNotFound { account_id: "ACC_001".to_string(), wallet_type: WalletType::Spot };
    assert!(err.message().contains("ACC_001"));
    assert!(err.message().contains("spot"));
}

#[test]
fn test_wallet_debit() {
    let mut wallet = Wallet::new("WAL_001".to_string(), "ACC_001".to_string(), WalletType::Funding);
    wallet.credit(Currency::usdt(), dec(1000, 0));
    assert!(wallet.debit("USDT", dec(300, 0)).is_ok());
    assert!(wallet.get_balance("USDT").unwrap().available == dec(700, 0));
    let result = wallet.debit("USDT", dec(1000, 0));
    assert!(result.is_err());
    assert!(result.unwrap_err() == dec(300, 0));
    let result = wallet.debit("BTC", dec(1, 0));
    assert!(result.is_err());
}

#[test]
fn credit_then_debit_restores_balance() {
    let mut balance = Balance::with_amount(Currency::usd(), dec(4250, 2));
    balance.credit(dec(1999, 2));
    assert!(balance.debit(dec(1999, 2)).is_ok());
    assert!(balance.available == dec(4250, 2));
}

#[test]
fn stored_codes_read_back() {
    for w in WalletType::all_types() {
        assert_eq!(WalletType::from_str(w.as_str()), Some(w));
        assert_eq!(WalletType::from_str(&w.as_str().to_uppercase()), Some(w));
    }
    for p in [PersonType::Customer, PersonType::Employee, PersonType::Shareholder, PersonType::Manager, PersonType::Auditor] {
        assert_eq!(PersonType::from_str(p.as_str()), Some(p));
    }
    for s in [AccountStatus::Active, AccountStatus::Frozen, AccountStatus::Closed] {
        assert_eq!(AccountStatus::from_str(s.as_str()), Some(s));
    }
    assert_eq!(WalletType::from_str("savings"), None);
}

#[test]
fn large_sums_are_what_decimal_gives() {
    let big = Amount::from_parts(70_000_000_000_000_000_000_000_000_000, 0).unwrap();
    let one = Amount::from_parts(10, 1).unwrap();
    assert_eq!(big.add(&one).to_text(), "70000000000000000000000000001");
    let max = Amount::from_parts(79_228_162_514_264_337_593_543_950_335, 0).unwrap();
    assert!(max.checked_add(&max).is_none());
    assert_eq!(dec(1050, 2).checked_add(&dec(25, 1)).unwrap().to_text(), "13.00");
}

#[test]
fn money_try_add() {
    let a = Money::new(dec(10050, 2), Currency::usd());
    let b = Money::new(dec(5025, 2), Currency::usd());
    assert_eq!(a.try_add(&b).unwrap().amount.to_text(), "150.75");
    assert!(a.try_add(&Money::new(dec(1, 0), Currency::vnd())).is_none());
}

#[test]
fn money_try_sub_and_checked_sub() {
    let a = Money::new(dec(10050, 2), Currency::usd());
    let b = Money::new(dec(5025, 2), Currency::usd());
    assert_eq!(a.try_sub(&b).unwrap().amount.to_text(), "50.25");
    assert!(a.try_sub(&Money::new(dec(1, 0), Currency::vnd())).is_none());
    let max = Amount::from_parts(79_228_162_514_264_337_593_543_950_335, 0).unwrap();
    let min = Amount::from_parts(-79_228_162_514_264_337_593_543_950_335, 0).unwrap();
    assert!(max.checked_sub(&min).is_none());
    assert_eq!(max.checked_sub(&max).unwrap().to_text(), "0");
}

#[test]
fn exact_sums_keep_the_larger_scale_or_the_other_operand() {
    assert_eq!(dec(0, 2).add(&dec(5, 0)).to_text(), "5");
    assert_eq!(dec(5, 0).add(&dec(0, 2)).to_text(), "5");
    assert_eq!(dec(1050, 2).add(&dec(25, 1)).to_text(), "13.00");
    assert_eq!(dec(5, 0).sub(&dec(0, 3)).to_text(), "5");
    assert_eq!(dec(0, 3).sub(&dec(5, 0)).to_text(), "-5");
    assert_eq!(dec(15, 1).sub(&dec(15, 1)).to_text(), "0.0");
    assert_eq!(dec(1000, 0).sub(&dec(300, 0)).to_text(), "700");
}

#[test]
fn amount_text_has_sign_whole_digits_and_scaled_fraction() {
    assert_eq!(dec(-12345, 2).to_text(), "-123.45");
    assert_eq!(dec(5, 3).to_text(), "0.005");
    assert_eq!(dec(-5, 3).to_text(), "-0.005");
    assert_eq!(dec(0, 2).to_text(), "0.00");
    assert_eq!(dec(0, 0).to_text(), "0");
    assert_eq!(dec(1000, 0).to_text(), "1000");
    assert_eq!(dec(100000000, 8).to_text(), "1.00000000");
}
