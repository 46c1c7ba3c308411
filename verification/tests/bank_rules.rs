use simbank::bank::event::AmlFlag;
use simbank::bank::rules::{Rule, RuleAction, RuleBuilder, RuleCondition, RuleSet, TransactionContext};
use simbank::bank::scenario::{
    AuditorOp, CustomerOp, EmployeeOp, ManagerOp, Operation, ScenarioBuilder, ShareholderOp, StakeholderBlock,
};
use simbank::bank::wallet::WalletType;
use simbank::decimal::Amount;

fn dec(m: i64, scale: u32) -> Amount {
    Amount::new(m, scale)
}

#[test]
fn test_multi_stakeholder_scenario() {
    let scenario = ScenarioBuilder::new()
        .customer(
            "Alice",
            vec![CustomerOp::Deposit { amount: dec(100, 0), currency: "USDT".to_string(), to_wallet: WalletType::Funding }],
        )
        .manager(
            "CEO",
            vec![
                ManagerOp::PaySalary {
                    employee_account: "ACC_EMP_001".to_string(),
                    amount: dec(5000, 0),
                    currency: "USD".to_string(),
                },
                ManagerOp::PayBonus {
                    employee_account: "ACC_EMP_001".to_string(),
                    amount: dec(1000, 0),
                    currency: "USD".to_string(),
                    reason: "Q4 Performance".to_string(),
                },
            ],
        )
        .auditor(
            "PwC",
            vec![AuditorOp::Scan {
                from_date: Some("2026-01-01".to_string()),
                to_date: None,
                flags: vec!["large_amount".to_string()],
            }],
        )
        .build();
    assert_eq!(scenario.blocks.len(), 3);
}

#[test]
fn test_approval_rule() {
    let rule = RuleBuilder::new("Large Withdrawal")
        .when(RuleCondition::AmountGreaterOrEqual { threshold: dec(50000, 0), currency: "USD".to_string() })
        .then(RuleAction::RequireApproval)
        .build();
    assert_eq!(rule.name, "Large Withdrawal");
    assert!(matches!(rule.action, RuleAction::RequireApproval));
}

#[test]
fn test_aml_rule() {
    let rule = RuleBuilder::new("Large Transaction")
        .when(RuleCondition::AmountGreaterThan { threshold: dec(10000, 0), currency: "USD".to_string() })
        .then(RuleAction::FlagAml("large_amount".to_string()))
        .build();
    assert_eq!(rule.name, "Large Transaction");
    assert!(matches!(rule.condition, RuleCondition::AmountGreaterThan { .. }));
    assert!(matches!(rule.action, RuleAction::FlagAml(_)));
}

#[test]
fn test_location_rule() {
    let rule = RuleBuilder::new("High Risk Country")
        .when(RuleCondition::LocationIn { countries: vec!["KP".to_string(), "IR".to_string(), "SY".to_string()] })
        .then(RuleAction::Block)
        .build();
    assert_eq!(rule.name, "High Risk Country");
    if let RuleCondition::LocationIn { countries } = &rule.condition {
        assert_eq!(countries.len(), 3);
        assert!(countries.contains(&"KP".to_string()));
    } else {
        panic!("Expected LocationIn condition");
    }
    assert!(matches!(rule.action, RuleAction::Block));
}

#[test]
fn test_customer_scenario() {
    let scenario = ScenarioBuilder::new()
        .customer(
            "Alice",
            vec![
                CustomerOp::Deposit { amount: dec(100, 0), currency: "USDT".to_string(), to_wallet: WalletType::Funding },
                CustomerOp::Transfer {
                    amount: dec(50, 0),
                    currency: "USDT".to_string(),
                    from_wallet: WalletType::Funding,
                    to_wallet: WalletType::Spot,
                },
                CustomerOp::Withdraw { amount: dec(20, 0), currency: "USDT".to_string(), from_wallet: WalletType::Funding },
            ],
        )
        .build();
    assert_eq!(scenario.blocks.len(), 1);
    if let StakeholderBlock::Customer { name, operations } = &scenario.blocks[0] {
        assert_eq!(name, "Alice");
        assert_eq!(operations.len(), 3);
    } else {
        panic!("Expected Customer block");
    }
}

#[test]
fn test_employee_scenario() {
    let scenario = ScenarioBuilder::new()
        .employee(
            "Bob",
            vec![
                EmployeeOp::ReceiveSalary { amount: dec(5000, 0), currency: "USD".to_string() },
                EmployeeOp::BuyInsurance {
                    plan: "Health Premium".to_string(),
                    cost: dec(200, 0),
                    currency: "USD".to_string(),
                },
            ],
        )
        .build();
    assert_eq!(scenario.blocks.len(), 1);
    if let StakeholderBlock::Employee { name, operations } = &scenario.blocks[0] {
        assert_eq!(name, "Bob");
        assert_eq!(operations.len(), 2);
    } else {
        panic!("Expected Employee block");
    }
}

#[test]
fn test_scenario_builder() {
    let scenario = ScenarioBuilder::new()
        .customer(
            "Alice",
            vec![CustomerOp::Deposit { amount: dec(100, 0), currency: "USDT".to_string(), to_wallet: WalletType::Funding }],
        )
        .employee("Bob", vec![EmployeeOp::ReceiveSalary { amount: dec(5000, 0), currency: "USD".to_string() }])
        .build();
    assert_eq!(scenario.blocks.len(), 2);
}

#[test]
fn test_operation_descriptions() {
    let deposit = CustomerOp::Deposit { amount: dec(100, 0), currency: "USDT".to_string(), to_wallet: WalletType::Funding };
    assert!(deposit.description().contains("100"));
    assert!(deposit.description().contains("USDT"));
    assert_eq!(deposit.description(), "Deposit 100 USDT to Funding");
    let salary = EmployeeOp::ReceiveSalary { amount: dec(5000, 0), currency: "USD".to_string() };
    assert!(salary.description().contains("5000"));
    let plan = EmployeeOp::BuyInsurance { plan: "Health".to_string(), cost: dec(2005, 1), currency: "USD".to_string() };
    assert_eq!(plan.description(), "Buy insurance 'Health' for 200.5 USD");
    let bonus = ManagerOp::PayBonus {
        employee_account: "ACC_2".to_string(),
        amount: dec(1, 0),
        currency: "USD".to_string(),
        reason: "Q4".to_string(),
    };
    assert_eq!(bonus.description(), "Pay bonus 1 USD to ACC_2 (Q4)");
    let div = ShareholderOp::ReceiveDividend { amount: dec(7, 0), currency: "VND".to_string() };
    assert_eq!(div.description(), "Receive dividend 7 VND");
}

#[test]
fn auditor_descriptions() {
    let scan = AuditorOp::Scan {
        from_date: Some("2026-01-01".to_string()),
        to_date: Some("2026-02-01".to_string()),
        flags: vec!["large_amount".to_string()],
    };
    assert_eq!(scan.description(), "Scan transactions from 2026-01-01 to 2026-02-01 with flags [\"large_amount\"]");
    let scan = AuditorOp::Scan { from_date: None, to_date: Some("x".to_string()), flags: vec![] };
    assert_eq!(scan.description(), "Scan transactions all time with flags []");
    let report = AuditorOp::Report { format: "Markdown".to_string() };
    assert_eq!(report.description(), "Generate Markdown report");
}

#[test]
fn test_scenario_iterators() {
    let scenario = ScenarioBuilder::new()
        .customer("Alice", vec![])
        .customer("Bob", vec![])
        .employee("Charlie", vec![])
        .build();
    assert_eq!(scenario.customers().len(), 2);
    assert_eq!(scenario.customers()[1].0, "Bob");
    assert_eq!(scenario.employees().len(), 1);
    assert_eq!(scenario.auditors().len(), 0);
    assert_eq!(scenario.managers().len(), 0);
    assert_eq!(scenario.shareholders().len(), 0);
}

#[test]
fn test_amount_condition() {
    let condition = RuleCondition::AmountGreaterThan { threshold: dec(10000, 0), currency: "USD".to_string() };
    let ctx_match = TransactionContext::new().with_amount(dec(15000, 0), "USD");
    assert!(condition.evaluate(&ctx_match));
    let ctx_no_match = TransactionContext::new().with_amount(dec(5000, 0), "USD");
    assert!(!condition.evaluate(&ctx_no_match));
    let ctx_wrong_currency = TransactionContext::new().with_amount(dec(15000, 0), "EUR");
    assert!(!condition.evaluate(&ctx_wrong_currency));
    let ctx_equal = TransactionContext::new().with_amount(dec(10000, 0), "USD");
    assert!(!condition.evaluate(&ctx_equal));
}

#[test]
fn test_location_condition() {
    let condition = RuleCondition::LocationIn { countries: vec!["KP".to_string(), "IR".to_string(), "SY".to_string()] };
    let ctx_match = TransactionContext::new().with_location("KP");
    assert!(condition.evaluate(&ctx_match));
    let ctx_no_match = TransactionContext::new().with_location("US");
    assert!(!condition.evaluate(&ctx_no_match));
    assert!(!condition.evaluate(&TransactionContext::new()));
}

#[test]
fn test_combined_conditions() {
    let large_amount = RuleCondition::AmountGreaterThan { threshold: dec(10000, 0), currency: "USD".to_string() };
    let high_risk = RuleCondition::LocationIn { countries: vec!["KP".to_string()] };
    let combined = large_amount.and(high_risk);
    let ctx_both = TransactionContext::new().with_amount(dec(15000, 0), "USD").with_location("KP");
    assert!(combined.evaluate(&ctx_both));
    let ctx_amount_only = TransactionContext::new().with_amount(dec(15000, 0), "USD").with_location("US");
    assert!(!combined.evaluate(&ctx_amount_only));
}

#[test]
fn either_condition() {
    let c = RuleCondition::TransactionType { tx_type: "withdrawal".to_string() }
        .or(RuleCondition::LocationIn { countries: vec!["CU".to_string()] });
    assert!(c.evaluate(&TransactionContext::new().with_tx_type("withdrawal")));
    assert!(c.evaluate(&TransactionContext::new().with_location("CU")));
    assert!(!c.evaluate(&TransactionContext::new().with_tx_type("deposit").with_actor("A").with_account("B")));
}

#[test]
fn test_rule_evaluation() {
    let rule = Rule::new(
        "Large Transaction",
        RuleCondition::AmountGreaterThan { threshold: dec(10000, 0), currency: "USD".to_string() },
        RuleAction::FlagAml("large_amount".to_string()),
    );
    let ctx = TransactionContext::new().with_amount(dec(15000, 0), "USD");
    assert!(rule.matches(&ctx));
    assert!(matches!(rule.action(), RuleAction::FlagAml(_)));
}

#[test]
fn test_ruleset() {
    let ruleset = RuleSet::new()
        .add(Rule::new(
            "Large Transaction",
            RuleCondition::AmountGreaterThan { threshold: dec(10000, 0), currency: "USD".to_string() },
            RuleAction::FlagAml("large_amount".to_string()),
        ))
        .add(Rule::new(
            "High Risk Country",
            RuleCondition::LocationIn { countries: vec!["KP".to_string(), "IR".to_string()] },
            RuleAction::Block,
        ));
    let ctx_large = TransactionContext::new().with_amount(dec(15000, 0), "USD").with_location("US");
    assert!(!ruleset.is_blocked(&ctx_large));
    assert_eq!(ruleset.get_aml_flags(&ctx_large).len(), 1);
    let ctx_risky = TransactionContext::new().with_amount(dec(100, 0), "USD").with_location("KP");
    assert!(ruleset.is_blocked(&ctx_risky));
    assert!(!ruleset.requires_approval(&ctx_risky));
    assert_eq!(ruleset.evaluate(&ctx_risky).len(), 1);
}

#[test]
fn test_aml_flag_conversion() {
    let action = RuleAction::FlagAml("large_amount".to_string());
    assert_eq!(action.to_aml_flag(), Some(AmlFlag::LargeAmount));
    let action = RuleAction::FlagAml("high_risk_country".to_string());
    assert_eq!(action.to_aml_flag(), Some(AmlFlag::HighRiskCountry));
    let action = RuleAction::Block;
    assert_eq!(action.to_aml_flag(), None);
    let action = RuleAction::FlagAml("rapid_withdrawal".to_string());
    assert_eq!(action.to_aml_flag(), None);
}

#[test]
fn test_auditor_scenario() {
    let scenario = ScenarioBuilder::new()
        .auditor(
            "Deloitte",
            vec![
                AuditorOp::Scan {
                    from_date: Some("2026-01-01".to_string()),
                    to_date: None,
                    flags: vec!["large_amount".to_string(), "high_risk_country".to_string()],
                },
                AuditorOp::Report { format: "Markdown".to_string() },
            ],
        )
        .build();
    assert_eq!(scenario.blocks.len(), 1);
    if let StakeholderBlock::Auditor { name, operations } = &scenario.blocks[0] {
        assert_eq!(name, "Deloitte");
        assert_eq!(operations.len(), 2);
    } else {
        panic!("Expected Auditor block");
    }
}
