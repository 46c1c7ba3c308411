use simbank::bank::event::{AmlFlag, Event};
use simbank::bank::filter::AmlReport as ScanReport;
use simbank::decimal::Amount;
use simbank::report::aml::{AmlReport, RiskLevel};
use simbank::report::exporters::{CsvExporter, JsonExporter, MarkdownExporter, ReportData, ReportExporter};
use simbank::report::transactions::{AccountSummaryReport, AccountSummaryRow, TransactionReport, TransactionRow};
use simbank::report::velocity::{sort_by_time, velocity_risk, span_minutes, VelocityReport};

fn dec(m: i64, scale: u32) -> Amount {
    Amount::new(m, scale)
}

fn interval_text(span: i64, gaps: usize) -> String {
    format!("{:.1} min", span as f64 / gaps as f64)
}

fn row(id: &str, ts: &str, tx_type: &str, amount: &str, description: &str) -> TransactionRow {
    TransactionRow {
        id: id.to_string(),
        timestamp: ts.to_string(),
        tx_type: tx_type.to_string(),
        amount: amount.to_string(),
        currency: "USD".to_string(),
        account_id: "ACC_001".to_string(),
        wallet_type: "funding".to_string(),
        description: description.to_string(),
    }
}

fn sample_transaction_report() -> TransactionReport {
    let mut report = TransactionReport::new("Test Transactions", "USD");
    report.add_transaction(row("TXN_001", "2026-01-25T10:00:00Z", "deposit", "100.00", "Test deposit"));
    report.add_transaction(row("TXN_002", "2026-01-25T11:00:00Z", "withdrawal", "50.00", "Test withdrawal"));
    report
}

#[test]
fn test_aml_report_empty() {
    let report = AmlReport::new("Empty Report");
    assert_eq!(report.total_events, 0);
    assert_eq!(report.risk_score_whole(), 0);
    assert_eq!(report.risk_classification(), RiskLevel::Low);
}

#[test]
fn test_aml_report_generate() {
    let mut event1 = Event::deposit("EVT_001", "CUST_001", "ACC_001", dec(15000, 0), "USD");
    event1.aml_flags.push(AmlFlag::LargeAmount);
    let mut event2 = Event::deposit("EVT_002", "CUST_001", "ACC_001", dec(9500, 0), "USD");
    event2.aml_flags.push(AmlFlag::NearThreshold);
    let events = vec![event1, event2];
    let report = AmlReport::generate("Test AML Report", &events);
    assert_eq!(report.total_events, 2);
    assert_eq!(report.flagged_events, 2);
    assert_eq!(report.large_amount_count, 1);
    assert_eq!(report.near_threshold_count, 1);
    assert!(report.risk_score_whole() > 0);
}

#[test]
fn test_risk_level_from_flag() {
    assert_eq!(RiskLevel::from_flag(&AmlFlag::LargeAmount), RiskLevel::High);
    assert_eq!(RiskLevel::from_flag(&AmlFlag::NearThreshold), RiskLevel::Medium);
    assert_eq!(RiskLevel::from_flag(&AmlFlag::UnusualPattern), RiskLevel::High);
    assert_eq!(RiskLevel::from_flag(&AmlFlag::HighRiskCountry), RiskLevel::Critical);
}

#[test]
fn test_flagged_events_sorted() {
    let mut event1 = Event::deposit("EVT_001", "CUST_001", "ACC_001", dec(15000, 0), "USD");
    event1.aml_flags.push(AmlFlag::NearThreshold);
    let mut event2 = Event::deposit("EVT_002", "CUST_001", "ACC_001", dec(50000, 0), "USD");
    event2.aml_flags.push(AmlFlag::HighRiskCountry);
    let events = vec![event1, event2];
    let report = AmlReport::generate("Test", &events);
    let sorted = report.flagged_events_sorted();
    assert!(!sorted.is_empty());
    assert_eq!(sorted[0].risk_level, RiskLevel::Critical);
}

#[test]
fn aml_risk_score_is_weighted_flags_over_events() {
    // Two events, one large amount (weight 6) and one high-risk country
    // (weight 10): 10 * 16 / 2 = 80, critical.
    let mut e1 = Event::deposit("EVT_001", "C", "A", dec(20000, 0), "USD");
    e1.aml_flags.push(AmlFlag::LargeAmount);
    let mut e2 = Event::deposit("EVT_002", "C", "A", dec(10, 0), "USD");
    e2.aml_flags.push(AmlFlag::HighRiskCountry);
    let report = AmlReport::generate("Score", &vec![e1, e2]);
    assert_eq!(report.risk_score_whole(), 80);
    assert_eq!(report.risk_classification(), RiskLevel::Critical);
    // One near-threshold flag over four events: 10 * 4 / 4 = 10, low.
    let mut e3 = Event::deposit("EVT_003", "C", "A", dec(9500, 0), "USD");
    e3.aml_flags.push(AmlFlag::NearThreshold);
    let plain: Vec<Event> = (4..7).map(|i| Event::deposit(&format!("EVT_{:03}", i), "C", "A", dec(1, 0), "USD")).collect();
    let mut events = vec![e3];
    events.extend(plain);
    let report = AmlReport::generate("Score", &events);
    assert_eq!(report.risk_score_whole(), 10);
    assert_eq!(report.risk_classification(), RiskLevel::Low);
}

#[test]
fn aml_rows_follow_risk_order() {
    let mut e1 = Event::deposit("EVT_001", "C", "A", dec(9500, 0), "USD");
    e1.aml_flags.push(AmlFlag::NearThreshold);
    let mut e2 = Event::deposit("EVT_002", "C", "A", dec(20000, 0), "USD");
    e2.aml_flags.push(AmlFlag::LargeAmount);
    e2.aml_flags.push(AmlFlag::HighRiskCountry);
    let report = AmlReport::generate("Rows", &vec![e1, e2]);
    let rows = report.rows();
    assert_eq!(rows.len(), 3);
    assert_eq!(rows[0][0], "EVT_002");
    assert_eq!(rows[0][7], "Critical");
    assert_eq!(rows[1][7], "High");
    assert_eq!(rows[2][0], "EVT_001");
    assert_eq!(rows[2][7], "Medium");
    assert_eq!(report.headers().len(), 9);
}

#[test]
fn test_velocity_report_empty() {
    let report = VelocityReport::new("Empty Velocity", 24);
    assert_eq!(report.accounts.len(), 0);
    assert_eq!(report.analysis_window_hours, 24);
}

#[test]
fn test_velocity_report_generate() {
    let base_time: i64 = 1_767_225_600_000;
    let mut events = vec![];
    for i in 0..5 {
        let mut event = Event::deposit(&format!("EVT_{:03}", i), "CUST_001", "ACC_001", dec(100, 0), "USD");
        event.timestamp = base_time + (i as i64) * 2 * 60_000;
        events.push(event);
    }
    let report = VelocityReport::generate("Velocity Test", &events, 24, interval_text);
    assert_eq!(report.accounts.len(), 1);
    assert_eq!(report.accounts[0].transaction_count, 5);
}

#[test]
fn velocity_analysis_of_one_account() {
    let base: i64 = 1_767_225_600_000;
    let mut events = vec![];
    // Given out of time order: 0, 6, 3, 9 minutes.
    for (i, m) in [0i64, 6, 3, 9].iter().enumerate() {
        let mut e = Event::deposit(&format!("EVT_{:03}", i), "C", "ACC_9", dec(250, 2), "USD");
        e.timestamp = base + m * 60_000;
        events.push(e);
    }
    let report = VelocityReport::generate("V", &events, 12, interval_text);
    let a = &report.accounts[0];
    assert_eq!(a.account_id, "ACC_9");
    assert_eq!(a.transaction_count, 4);
    assert_eq!(a.total_amount, "10.00");
    assert_eq!(a.time_span_minutes, 9);
    assert_eq!(a.avg_transaction_interval, "3.0 min");
    // Four transactions three minutes apart: high (more than three, under thirty minutes).
    assert_eq!(a.risk_level, RiskLevel::High);
    assert_eq!(a.transactions, vec!["EVT_000", "EVT_002", "EVT_001", "EVT_003"]);
}

#[test]
fn velocity_report_orders_accounts_by_risk() {
    let base: i64 = 1_767_225_600_000;
    let mut events = vec![];
    // ACC_L: two transactions an hour apart, low.
    for (i, m) in [0i64, 60].iter().enumerate() {
        let mut e = Event::deposit(&format!("EVT_L{}", i), "C", "ACC_L", dec(1, 0), "USD");
        e.timestamp = base + m * 60_000;
        events.push(e);
    }
    // ACC_C: seven transactions a minute apart, critical.
    for i in 0..7i64 {
        let mut e = Event::deposit(&format!("EVT_C{}", i), "C", "ACC_C", dec(1, 0), "USD");
        e.timestamp = base + i * 60_000;
        events.push(e);
    }
    // ACC_M: three transactions twenty minutes apart, medium.
    for i in 0..3i64 {
        let mut e = Event::deposit(&format!("EVT_M{}", i), "C", "ACC_M", dec(1, 0), "USD");
        e.timestamp = base + i * 20 * 60_000;
        events.push(e);
    }
    // ACC_S: a single transaction, not analyzed.
    events.push(Event::deposit("EVT_S0", "C", "ACC_S", dec(1, 0), "USD"));
    let report = VelocityReport::generate("V", &events, 24, interval_text);
    let ids: Vec<&str> = report.accounts.iter().map(|a| a.account_id.as_str()).collect();
    assert_eq!(ids, vec!["ACC_C", "ACC_M", "ACC_L"]);
    let summary = report.summary();
    assert_eq!(summary[0], ("Analysis Window".to_string(), "24 hours".to_string()));
    assert_eq!(summary[1], ("Accounts Analyzed".to_string(), "3".to_string()));
    assert_eq!(summary[2], ("High Risk Accounts".to_string(), "1".to_string()));
    let rows = report.rows();
    assert_eq!(rows[0], vec!["ACC_C", "7", "7", "6 min", "1.0 min", "Critical"]);
    assert_eq!(report.title(), "V");
    assert_eq!(report.headers(), vec!["Account", "Tx Count", "Total Amount", "Time Span", "Avg Interval", "Risk Level"]);
}

#[test]
fn velocity_try_generate_refuses_totals_that_round() {
    // 2^95 and 2^95 cannot be added in 96 bits.
    let big = Amount::from_parts(39614081257132168796771975168, 0).unwrap();
    let mut e1 = Event::deposit("EVT_1", "C", "A", big, "USD");
    e1.timestamp = 0;
    let mut e2 = Event::deposit("EVT_2", "C", "A", big, "USD");
    e2.timestamp = 60_000;
    assert!(VelocityReport::try_generate("V", &vec![e1, e2], 1, interval_text).is_none());
    let e3 = Event::deposit("EVT_3", "C", "A", dec(1, 0), "USD");
    let e4 = Event::deposit("EVT_4", "C", "A", dec(2, 0), "USD");
    let report = VelocityReport::try_generate("V", &vec![e3, e4], 1, interval_text).unwrap();
    assert_eq!(report.accounts[0].total_amount, "3");
}

#[test]
fn velocity_risk_thresholds() {
    assert_eq!(velocity_risk(24, 6), RiskLevel::Critical);
    assert_eq!(velocity_risk(25, 6), RiskLevel::High);
    assert_eq!(velocity_risk(89, 4), RiskLevel::High);
    assert_eq!(velocity_risk(90, 4), RiskLevel::Medium);
    assert_eq!(velocity_risk(119, 3), RiskLevel::Medium);
    assert_eq!(velocity_risk(120, 3), RiskLevel::Low);
    assert_eq!(velocity_risk(0, 2), RiskLevel::Low);
}

#[test]
fn span_counts_whole_minutes() {
    assert_eq!(span_minutes(0, 59_999), 0);
    assert_eq!(span_minutes(0, 60_000), 1);
    assert_eq!(span_minutes(-60_000, 125_000), 3);
}

#[test]
fn sort_by_time_is_stable() {
    let mut a = Event::deposit("A", "C", "X", dec(1, 0), "USD");
    a.timestamp = 5;
    let mut b = Event::deposit("B", "C", "X", dec(1, 0), "USD");
    b.timestamp = 1;
    let mut c = Event::deposit("C", "C", "X", dec(1, 0), "USD");
    c.timestamp = 5;
    let refs = vec![&a, &b, &c];
    let sorted = sort_by_time(&refs);
    let ids: Vec<&str> = sorted.iter().map(|e| e.event_id.as_str()).collect();
    assert_eq!(ids, vec!["B", "A", "C"]);
}

#[test]
fn test_csv_exporter() {
    let report = sample_transaction_report();
    let exporter = CsvExporter::new();
    let output = exporter.export(&report);
    assert!(output.contains("ID,Timestamp,Type,Amount"));
    assert!(output.contains("TXN_001"));
    assert!(output.contains("TXN_002"));
    assert!(output.contains("deposit"));
    assert_eq!(exporter.extension(), "csv");
}

#[test]
fn test_csv_with_special_chars() {
    let mut report = TransactionReport::new("Test", "USD");
    report.add_transaction(row("TXN_001", "2026-01-25T10:00:00Z", "deposit", "100.00",
        "Test, with \"quotes\" and comma"));
    let exporter = CsvExporter::new();
    let output = exporter.export(&report);
    assert!(output.contains("\"Test, with \"\"quotes\"\" and comma\""));
}

#[test]
fn csv_output_exact() {
    let report = sample_transaction_report();
    let output = CsvExporter::new().export(&report);
    assert_eq!(
        output,
        "ID,Timestamp,Type,Amount,Currency,Account,Wallet,Description\n\
         TXN_001,2026-01-25T10:00:00Z,deposit,100.00,USD,ACC_001,funding,Test deposit\n\
         TXN_002,2026-01-25T11:00:00Z,withdrawal,50.00,USD,ACC_001,funding,Test withdrawal\n"
    );
    let semi = CsvExporter::new().with_delimiter(';').without_header().export(&report);
    assert!(semi.starts_with("TXN_001;2026-01-25T10:00:00Z;deposit;100.00;USD;ACC_001;funding;Test deposit\n"));
}

#[test]
fn test_json_exporter() {
    let report = sample_transaction_report();
    let exporter = JsonExporter::new();
    let output = exporter.export(&report);
    assert!(output.contains("\"title\": \"Test Transactions\""));
    assert!(output.contains("\"TXN_001\""));
    assert!(output.contains("\"deposit\""));
    assert_eq!(exporter.extension(), "json");
}

#[test]
fn test_json_compact() {
    let report = sample_transaction_report();
    let exporter = JsonExporter::new().compact();
    let output = exporter.export(&report);
    assert!(!output.contains("  "));
}

#[test]
fn test_markdown_exporter() {
    let report = sample_transaction_report();
    let exporter = MarkdownExporter::new();
    let output = exporter.export(&report);
    assert!(output.contains("# Test Transactions"));
    assert!(output.contains("## Summary"));
    assert!(output.contains("## Data"));
    assert!(output.contains("| ID | Timestamp | Type |"));
    assert!(output.contains("| --- | --- | --- |"));
    assert!(output.contains("| TXN_001 |"));
    assert_eq!(exporter.extension(), "md");
}

#[test]
fn test_markdown_with_toc() {
    let report = sample_transaction_report();
    let exporter = MarkdownExporter::new().with_toc();
    let output = exporter.export(&report);
    assert!(output.contains("## Table of Contents"));
    assert!(output.contains("- [Summary](#summary)"));
    assert!(output.contains("- [Data](#data)"));
}

#[test]
fn test_transaction_report_from_events() {
    let events = vec![
        Event::deposit("EVT_001", "CUST_001", "ACC_001", dec(100, 0), "USD"),
        Event::withdrawal("EVT_002", "CUST_001", "ACC_001", dec(50, 0), "USD"),
    ];
    let report = TransactionReport::from_events("Event Report", &events);
    assert_eq!(report.transactions.len(), 2);
    assert!(report.total_amount == dec(150, 0));
}

#[test]
fn transaction_report_total_skips_unparsed_amounts() {
    let mut report = TransactionReport::new("T", "USD");
    report.add_transaction(row("TXN_1", "t", "deposit", "1.25", "d"));
    report.add_transaction(row("TXN_2", "t", "deposit", "not a number", "d"));
    report.add_transaction(row("TXN_3", "t", "deposit", "2.5", "d"));
    assert!(report.total_amount == dec(375, 2));
    assert_eq!(report.summary()[1].1, "3.75 USD");
}

#[test]
fn test_account_summary_report() {
    let mut report = AccountSummaryReport::new("Account Summary");
    report.add_account(AccountSummaryRow {
        account_id: "ACC_001".to_string(),
        person_name: "Alice".to_string(),
        person_type: "customer".to_string(),
        status: "active".to_string(),
        wallet_count: 2,
        total_balance: "1000.00 USD".to_string(),
    });
    report.add_account(AccountSummaryRow {
        account_id: "ACC_002".to_string(),
        person_name: "Bob".to_string(),
        person_type: "employee".to_string(),
        status: "active".to_string(),
        wallet_count: 1,
        total_balance: "5000.00 USD".to_string(),
    });
    let exporter = MarkdownExporter::new();
    let output = exporter.export(&report);
    assert!(output.contains("ACC_001"));
    assert!(output.contains("Alice"));
    assert!(output.contains("Total Accounts"));
}

/// The risk score in floating point, as the report's table writes it.
fn score_text(r: &AmlReport) -> String {
    let score = if r.total_events == 0 {
        0.0
    } else {
        let w = r.large_amount_count as f64 * 3.0
            + r.near_threshold_count as f64 * 2.0
            + r.unusual_pattern_count as f64 * 3.5
            + r.high_risk_country_count as f64 * 5.0;
        (w / (r.total_events as f64 * 5.0) * 100.0).min(100.0)
    };
    format!("{:.1}/100", score)
}

#[test]
fn test_aml_report_summary() {
    let report = AmlReport::new("Summary Test");
    let summary = report.summary_with_score(&score_text(&report));
    assert!(summary.iter().any(|(k, _)| k == "Total Events"));
    assert!(summary.iter().any(|(k, _)| k == "Risk Score"));
}

#[test]
fn test_aml_report_as_report_data() {
    let mut event = Event::deposit("EVT_001", "CUST_001", "ACC_001", dec(15000, 0), "USD");
    event.aml_flags.push(AmlFlag::LargeAmount);
    let events = vec![event];
    let report = AmlReport::generate("Test", &events);
    let table = report.as_table(&score_text(&report));
    assert_eq!(table.title(), "Test");
    assert!(!table.headers().is_empty());
    assert!(!table.rows().is_empty());
    assert!(!table.summary().is_empty());
}

#[test]
fn aml_summary_lists_counts_score_and_class() {
    let mut e1 = Event::deposit("EVT_001", "CUST_001", "ACC_001", dec(15000, 0), "USD");
    e1.aml_flags.push(AmlFlag::LargeAmount);
    let e2 = Event::deposit("EVT_002", "CUST_001", "ACC_001", dec(10, 0), "USD");
    let report = AmlReport::generate("S", &vec![e1, e2]);
    let summary = report.summary_with_score("30.0/100");
    let keys: Vec<&str> = summary.iter().map(|(k, _)| k.as_str()).collect();
    assert_eq!(
        keys,
        vec![
            "Total Events",
            "Flagged Events",
            "Large Amount",
            "Near Threshold",
            "Unusual Pattern",
            "High Risk Country",
            "Risk Score",
            "Risk Level",
            "Generated At"
        ]
    );
    assert_eq!(summary[0].1, "2");
    assert_eq!(summary[1].1, "1");
    assert_eq!(summary[2].1, "1");
    assert_eq!(summary[6].1, "30.0/100");
    assert_eq!(summary[7].1, "Medium");
}

#[test]
fn test_summary_text_format() {
    let mut event = Event::deposit("EVT_001", "CUST_001", "ACC_001", dec(15000, 0), "USD");
    event.aml_flags.push(AmlFlag::LargeAmount);
    let events = vec![event];
    let report = AmlReport::generate("Test Report", &events);
    let score = score_text(&report);
    let share = report.flagged_events as f64 / report.total_events as f64 * 100.0;
    let summary = report.summary_text_with(score.trim_end_matches("/100"), &format!("{:.1}", share));
    assert!(summary.contains("Test Report"));
    assert!(summary.contains("Risk Score"));
    assert!(summary.contains("Large Amount"));
}

#[test]
fn summary_text_lines() {
    let mut event = Event::deposit("EVT_001", "CUST_001", "ACC_001", dec(15000, 0), "USD");
    event.aml_flags.push(AmlFlag::LargeAmount);
    let report = AmlReport::generate("Daily", &vec![event]);
    let text = report.summary_text_with("60.0", "100.0");
    let lines: Vec<&str> = text.lines().collect();
    assert_eq!(lines[0], "=== Daily ===");
    assert!(lines[2].starts_with("Generated: ") && lines[2].ends_with(" UTC"));
    assert_eq!(lines[3], "Risk Score: 60.0/100 (High)");
    assert_eq!(lines[5], "--- Statistics ---");
    assert_eq!(lines[6], "Total Events Analyzed: 1");
    assert_eq!(lines[7], "Flagged Events: 1 (100.0%)");
    assert_eq!(lines[8], "  - Large Amount (>$10,000): 1");
    assert_eq!(lines[9], "  - Near Threshold ($9,000-$9,999): 0");
    assert_eq!(lines[10], "  - Unusual Pattern: 0");
    assert_eq!(lines[11], "  - High Risk Country: 0");
}

#[test]
fn scan_report_text() {
    let mut e1 = Event::deposit("EVT_001", "CUST_001", "ACC_001", dec(100000, 0), "USDT");
    e1.aml_flags.push(AmlFlag::LargeAmount);
    let e2 = Event::withdrawal("EVT_002", "CUST_001", "ACC_001", dec(50, 0), "USDT");
    let report = ScanReport::generate(&vec![e1, e2]);
    assert_eq!(
        report.summary_with_share("50.0"),
        "AML Report:\n- Total events: 2\n- Flagged events: 1 (50.0%)\n- Large amount: 1\n- Unusual pattern: 0\n- High risk country: 0"
    );
}
