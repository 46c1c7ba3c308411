//! The decisions of the command-line front end: what its arguments mean,
//! the identifiers it hands out, which wallets an account gets, how an
//! audit filters events and how a report is written.
use vstd::prelude::*;
use vstd::string::{StringExecFns, StringSliceAdditionalSpecFns};
use vstd::utf8::{encode_utf8, is_char_boundary};
use crate::bank::event::{aml_flag_text, AmlFlag};
use crate::bank::filter::EventFilter;
use crate::bank::person::{id_prefix_text, Person, PersonType};
use crate::bank::wallet::{wallet_type_text, WalletType};
use crate::decimal::{decimal_parse, decimal_text, Amount};
use crate::report::exporters::{
    csv_text, json_pretty_text, markdown_text, report_document, row_object, CsvExporter, JsonExporter, MarkdownExporter,
    ReportData, ReportExporter,
};
use crate::text::{
    all_ascii, ascii_lower_all, is_code_char, lemma_code_text_lower, lowercase_text, prefixed_number, str_eq,
    to_lowercase, zero_padded,
};

verus! {

/// The person types the command line names.
#[derive(Debug, Clone, Copy, PartialEq, Eq, Structural)]
pub enum PersonTypeArg {
    Customer,
    Employee,
    Shareholder,
    Manager,
    Auditor,
}

/// The person type an argument names.
pub open spec fn person_type_of(a: PersonTypeArg) -> PersonType {
    match a {
        PersonTypeArg::Customer => PersonType::Customer,
        PersonTypeArg::Employee => PersonType::Employee,
        PersonTypeArg::Shareholder => PersonType::Shareholder,
        PersonTypeArg::Manager => PersonType::Manager,
        PersonTypeArg::Auditor => PersonType::Auditor,
    }
}

impl PersonTypeArg {
    /// The person type of the model.
    pub fn to_core_type(&self) -> (r: PersonType)
        ensures
            r == person_type_of(*self),
    {
        match self {
            PersonTypeArg::Customer => PersonType::Customer,
            PersonTypeArg::Employee => PersonType::Employee,
            PersonTypeArg::Shareholder => PersonType::Shareholder,
            PersonTypeArg::Manager => PersonType::Manager,
            PersonTypeArg::Auditor => PersonType::Auditor,
        }
    }
}

/// The wallet types the command line names.
#[derive(Debug, Clone, Copy, PartialEq, Eq, Structural)]
pub enum WalletTypeArg {
    Spot,
    Funding,
    Margin,
    Futures,
    Earn,
}

/// The wallet type an argument names.
pub open spec fn wallet_type_of(a: WalletTypeArg) -> WalletType {
    match a {
        WalletTypeArg::Spot => WalletType::Spot,
        WalletTypeArg::Funding => WalletType::Funding,
        WalletTypeArg::Margin => WalletType::Margin,
        WalletTypeArg::Futures => WalletType::Futures,
        WalletTypeArg::Earn => WalletType::Earn,
    }
}

impl WalletTypeArg {
    /// The wallet type of the model.
    pub fn to_core_type(&self) -> (r: WalletType)
        ensures
            r == wallet_type_of(*self),
    {
        match self {
            WalletTypeArg::Spot => WalletType::Spot,
            WalletTypeArg::Funding => WalletType::Funding,
            WalletTypeArg::Margin => WalletType::Margin,
            WalletTypeArg::Futures => WalletType::Futures,
            WalletTypeArg::Earn => WalletType::Earn,
        }
    }
}

/// The formats a report can be written in.
#[derive(Debug, Clone, Copy, PartialEq, Eq, Structural)]
pub enum ReportFormat {
    Csv,
    Json,
    Markdown,
}

/// The reports the command line can write.
#[derive(Debug, Clone, Copy, PartialEq, Eq, Structural)]
pub enum ReportType {
    Aml,
    Transactions,
    Accounts,
}

/// What can be done to accounts from the command line.
#[derive(Debug)]
pub enum AccountAction {
    /// Open an account for a new person
    Create { person_type: PersonTypeArg, name: String, email: Option<String> },
    /// List the accounts, of one person type or all
    List { person_type: Option<PersonTypeArg> },
    /// Show an account
    Show { account_id: String },
    /// Show an account's balances
    Balance { account_id: String },
}

// ---------------------------------------------------------------------------
// Accounts and identifiers
// ---------------------------------------------------------------------------

/// The wallets an account opened for a person gets: spot and funding for a
/// customer, funding for an employee or a shareholder, none for a manager
/// or an auditor.
pub open spec fn wallets_for(t: PersonType) -> Seq<WalletType> {
    match t {
        PersonType::Customer => seq![WalletType::Spot, WalletType::Funding],
        PersonType::Employee => seq![WalletType::Funding],
        PersonType::Shareholder => seq![WalletType::Funding],
        PersonType::Manager => Seq::empty(),
        PersonType::Auditor => Seq::empty(),
    }
}

/// The wallets an account opened for a person gets.
pub fn get_wallet_types_for_person(person_type: &PersonType) -> (r: Vec<WalletType>)
    ensures
        r@ == wallets_for(*person_type),
{
    let mut v: Vec<WalletType> = Vec::new();
    match person_type {
        PersonType::Customer => {
            v.push(WalletType::Spot);
            v.push(WalletType::Funding);
        },
        PersonType::Employee => {
            v.push(WalletType::Funding);
        },
        PersonType::Shareholder => {
            v.push(WalletType::Funding);
        },
        PersonType::Manager => {},
        PersonType::Auditor => {},
    }
    proof { assert(v@ =~= wallets_for(*person_type)); }
    v
}

/// The prefix of the identifiers of people of a type: the one a person's
/// identifier carries (`AUDIT_001` for the first auditor).
pub open spec fn person_prefix_text(t: PersonType) -> Seq<char> {
    id_prefix_text(t)
}

/// The prefix of the identifiers of people of a type.
pub fn person_id_prefix(person_type: &PersonType) -> (r: &'static str)
    ensures
        r@ == person_prefix_text(*person_type),
{
    Person::id_prefix(*person_type)
}

/// An identifier that follows `count` others: the prefix, an underscore
/// and `count + 1` in at least three digits.
pub open spec fn numbered_id(prefix: Seq<char>, count: nat) -> Seq<char> {
    prefix + "_"@ + zero_padded(count + 1, 3)
}

/// The identifier of the next person of a type, given how many there are.
pub fn next_person_id(person_type: &PersonType, count: u64) -> (r: String)
    requires
        count < u64::MAX,
    ensures
        r@ == numbered_id(person_prefix_text(*person_type), count as nat),
{
    let mut prefix = String::from_str(person_id_prefix(person_type));
    prefix.append("_");
    proof { reveal_strlit("_"); }
    prefixed_number(prefix.as_str(), count + 1, 3)
}

/// The identifier of the next record of a kind (`ACC`, `WAL`, `TXN`),
/// given how many there are.
pub fn next_numbered_id(prefix: &str, count: u64) -> (r: String)
    requires
        count < u64::MAX,
    ensures
        r@ == numbered_id(prefix@, count as nat),
{
    let mut p = String::from_str(prefix);
    p.append("_");
    proof { reveal_strlit("_"); }
    prefixed_number(p.as_str(), count + 1, 3)
}

/// The identifier of the next account, given how many there are.
pub fn next_account_id(count: u64) -> (r: String)
    requires
        count < u64::MAX,
    ensures
        r@ == numbered_id("ACC"@, count as nat),
{
    next_numbered_id("ACC", count)
}

/// The identifier of the next wallet, given how many there are.
pub fn next_wallet_id(count: u64) -> (r: String)
    requires
        count < u64::MAX,
    ensures
        r@ == numbered_id("WAL"@, count as nat),
{
    next_numbered_id("WAL", count)
}

/// The identifier of the next transaction, given how many there are.
pub fn next_transaction_id(count: u64) -> (r: String)
    requires
        count < u64::MAX,
    ensures
        r@ == numbered_id("TXN"@, count as nat),
{
    next_numbered_id("TXN", count)
}

// ---------------------------------------------------------------------------
// Audit
// ---------------------------------------------------------------------------

/// The flag whose code is a text, if any.
pub open spec fn flag_named(s: Seq<char>) -> Option<AmlFlag> {
    if s == aml_flag_text(AmlFlag::LargeAmount) {
        Some(AmlFlag::LargeAmount)
    } else if s == aml_flag_text(AmlFlag::NearThreshold) {
        Some(AmlFlag::NearThreshold)
    } else if s == aml_flag_text(AmlFlag::UnusualPattern) {
        Some(AmlFlag::UnusualPattern)
    } else if s == aml_flag_text(AmlFlag::CrossBorder) {
        Some(AmlFlag::CrossBorder)
    } else if s == aml_flag_text(AmlFlag::HighRiskCountry) {
        Some(AmlFlag::HighRiskCountry)
    } else if s == aml_flag_text(AmlFlag::NewAccountLargeTx) {
        Some(AmlFlag::NewAccountLargeTx)
    } else if s == aml_flag_text(AmlFlag::RapidWithdrawal) {
        Some(AmlFlag::RapidWithdrawal)
    } else {
        None
    }
}

/// The flag a command-line word names, in any case.
pub fn parse_aml_flag(s: &str) -> (r: Option<AmlFlag>)
    ensures
        r == flag_named(lowercase_text(s@)),
        all_ascii(s@) ==> r == flag_named(ascii_lower_all(s@)),
{
    let lower = to_lowercase(s);
    let l = lower.as_str();
    proof {
        reveal_strlit("large_amount");
        reveal_strlit("near_threshold");
        reveal_strlit("unusual_pattern");
        reveal_strlit("cross_border");
        reveal_strlit("high_risk_country");
        reveal_strlit("new_account_large_tx");
        reveal_strlit("rapid_withdrawal");
    }
    if str_eq(l, "large_amount") {
        Some(AmlFlag::LargeAmount)
    } else if str_eq(l, "near_threshold") {
        Some(AmlFlag::NearThreshold)
    } else if str_eq(l, "unusual_pattern") {
        Some(AmlFlag::UnusualPattern)
    } else if str_eq(l, "cross_border") {
        Some(AmlFlag::CrossBorder)
    } else if str_eq(l, "high_risk_country") {
        Some(AmlFlag::HighRiskCountry)
    } else if str_eq(l, "new_account_large_tx") {
        Some(AmlFlag::NewAccountLargeTx)
    } else if str_eq(l, "rapid_withdrawal") {
        Some(AmlFlag::RapidWithdrawal)
    } else {
        None
    }
}

/// The code of every flag reads back as that flag: it is ASCII, already in
/// lower case, and names that flag and no other.
pub proof fn lemma_flag_code_round_trip(f: AmlFlag)
    ensures
        all_ascii(aml_flag_text(f)),
        flag_named(ascii_lower_all(aml_flag_text(f))) == Some(f),
{
    reveal_strlit("large_amount");
    reveal_strlit("near_threshold");
    reveal_strlit("unusual_pattern");
    reveal_strlit("cross_border");
    reveal_strlit("high_risk_country");
    reveal_strlit("new_account_large_tx");
    reveal_strlit("rapid_withdrawal");
    let t = aml_flag_text(f);
    assert(forall|i: int| 0 <= i < t.len() ==> is_code_char(#[trigger] t[i]));
    lemma_code_text_lower(t);
    let la = aml_flag_text(AmlFlag::LargeAmount);
    let cb = aml_flag_text(AmlFlag::CrossBorder);
    assert(la.len() == 12 && cb.len() == 12 && la[0] != cb[0]);
    assert(aml_flag_text(AmlFlag::NearThreshold).len() == 14);
    assert(aml_flag_text(AmlFlag::UnusualPattern).len() == 15);
    assert(aml_flag_text(AmlFlag::HighRiskCountry).len() == 17);
    assert(aml_flag_text(AmlFlag::NewAccountLargeTx).len() == 20);
    assert(aml_flag_text(AmlFlag::RapidWithdrawal).len() == 16);
}

/// The flags that words name, in order, those naming none left out.
pub open spec fn flags_named(words: Seq<Seq<char>>) -> Seq<AmlFlag>
    decreases words.len(),
{
    if words.len() == 0 {
        Seq::empty()
    } else {
        let rest = flags_named(words.drop_last());
        match flag_named(lowercase_text(words.last())) {
            Some(f) => rest.push(f),
            None => rest,
        }
    }
}

/// The texts of a list of strings.
pub open spec fn string_texts(v: Seq<String>) -> Seq<Seq<char>> {
    v.map_values(|s: String| s@)
}

/// The flags that command-line words name.
pub fn parse_aml_flags(words: &Vec<String>) -> (r: Vec<AmlFlag>)
    ensures
        r@ == flags_named(string_texts(words@)),
{
    let mut out: Vec<AmlFlag> = Vec::new();
    let mut i: usize = 0;
    proof { assert(string_texts(words@).subrange(0, 0) =~= Seq::<Seq<char>>::empty()); }
    while i < words.len()
        invariant
            i <= words@.len(),
            out@ == flags_named(string_texts(words@).subrange(0, i as int)),
        decreases words@.len() - i,
    {
        proof {
            let t = string_texts(words@);
            assert(t.subrange(0, i as int + 1).drop_last() =~= t.subrange(0, i as int));
            assert(t.subrange(0, i as int + 1).last() == words@[i as int]@);
        }
        match parse_aml_flag(words[i].as_str()) {
            Some(f) => out.push(f),
            None => {},
        }
        i = i + 1;
    }
    proof { assert(string_texts(words@).subrange(0, words@.len() as int) =~= string_texts(words@)); }
    out
}

/// The filter of an audit: the account when one is given, and the events
/// with one of the named flags when flags are given.
pub fn audit_filter(account: &Option<String>, flags: &Option<Vec<String>>) -> (r: EventFilter)
    ensures
        match account {
            Some(a) => r.account_id matches Some(x) && x@ == a@,
            None => r.account_id is None,
        },
        match flags {
            Some(w) => r.aml_flags matches Some(f) && f@ == flags_named(string_texts(w@)),
            None => r.aml_flags is None,
        },
        r.actor_id is None,
        r.event_types is None,
        !r.only_flagged,
        r.min_amount is None,
        r.max_amount is None,
{
    let mut filter = EventFilter::new();
    match account {
        Some(a) => {
            filter = filter.account(a.as_str());
        },
        None => {},
    }
    match flags {
        Some(w) => {
            let parsed = parse_aml_flags(w);
            filter = filter.aml_flags(parsed);
        },
        None => {},
    }
    filter
}

/// The days an audit reads: from and to both given, that range; only from
/// given, from then to today; otherwise every day (none).
pub fn audit_days(from: &Option<String>, to: &Option<String>, today: &str) -> (r: Option<(String, String)>)
    ensures
        match (from, to) {
            (Some(f), Some(t)) => r matches Some(p) && p.0@ == f@ && p.1@ == t@,
            (Some(f), None) => r matches Some(p) && p.0@ == f@ && p.1@ == today@,
            _ => r is None,
        },
{
    match (from, to) {
        (Some(f), Some(t)) => Some((f.clone(), t.clone())),
        (Some(f), None) => Some((f.clone(), String::from_str(today))),
        _ => None,
    }
}

/// A text cut to a width for a table: unchanged when its UTF-8 encoding
/// fits in `max` bytes, otherwise its first `max - 3` bytes and `...`.
pub fn truncate(s: &str, max: usize) -> (r: String)
    requires
        s.len() > max ==> 3 <= max && is_char_boundary(s.spec_bytes(), max - 3),
    ensures
        s.len() <= max ==> r@ == s@,
        s.len() > max ==> {
            &&& r@.len() >= 3
            &&& r@.subrange(r@.len() - 3, r@.len() as int) == "..."@
            &&& encode_utf8(r@.subrange(0, r@.len() - 3)) == s.spec_bytes().subrange(0, max - 3)
        },
{
    if s.len() <= max {
        String::from_str(s)
    } else {
        let (head, _tail) = s.split_at(max - 3);
        let mut out = String::from_str(head);
        out.append("...");
        proof {
            reveal_strlit("...");
            assert(out@.subrange(0, out@.len() - 3) =~= head@);
            assert(out@.subrange(out@.len() - 3, out@.len() as int) =~= "..."@);
            assert(head.spec_bytes() == encode_utf8(head@));
            assert(head.spec_bytes() =~= s.spec_bytes().subrange(0, max - 3));
        }
        out
    }
}

// ---------------------------------------------------------------------------
// Reports
// ---------------------------------------------------------------------------

/// The title of a report of a type.
pub open spec fn report_title_text(t: ReportType) -> Seq<char> {
    match t {
        ReportType::Aml => "AML Compliance Report"@,
        ReportType::Transactions => "Transaction Report"@,
        ReportType::Accounts => "Account Activity Report"@,
    }
}

/// The title of a report of a type.
pub fn report_title(report_type: ReportType) -> (r: &'static str)
    ensures
        r@ == report_title_text(report_type),
{
    proof {
        reveal_strlit("AML Compliance Report");
        reveal_strlit("Transaction Report");
        reveal_strlit("Account Activity Report");
    }
    match report_type {
        ReportType::Aml => "AML Compliance Report",
        ReportType::Transactions => "Transaction Report",
        ReportType::Accounts => "Account Activity Report",
    }
}

/// What a report becomes in a format: CSV with commas and a header line,
/// indented JSON, or Markdown with a summary and a table of contents.
pub open spec fn exported_text<R: ReportData>(report: R, format: ReportFormat) -> Seq<char> {
    match format {
        ReportFormat::Csv => csv_text(',', true, report.headers_view(), report.rows_view()),
        ReportFormat::Json => json_pretty_text(report_document(report.title_view(), report.summary_view(),
            report.rows_view().map_values(|row: Seq<Seq<char>>| row_object(report.headers_view(), row)))),
        ReportFormat::Markdown => markdown_text(true, true, report.title_view(), report.summary_view(),
            report.headers_view(), report.rows_view()),
    }
}

/// Writes a report in a format.
pub fn export_report<R: ReportData>(report: &R, format: ReportFormat) -> (r: String)
    ensures
        r@ == exported_text(*report, format),
{
    match format {
        ReportFormat::Csv => CsvExporter::new().export(report),
        ReportFormat::Json => JsonExporter::new().export(report),
        ReportFormat::Markdown => MarkdownExporter::new().with_toc().export(report),
    }
}


// ---------------------------------------------------------------------------
// Wallet commands
// ---------------------------------------------------------------------------

/// The identifier of the event that records an account's opening.
pub fn account_event_id(account_id: &str) -> (r: String)
    ensures
        r@ == "EVT_ACC_"@ + account_id@,
{
    let mut s = String::from_str("EVT_ACC_");
    s.append(account_id);
    s
}

/// The description stored with a deposit.
pub fn deposit_description(amount: &Amount, currency: &str, to: WalletType) -> (r: String)
    ensures
        r@ == "Deposit "@ + decimal_text(amount.parts()) + " "@ + currency@ + " to "@ + wallet_type_text(to),
{
    let mut s = String::from_str("Deposit ");
    s.append(amount.to_text().as_str());
    s.append(" ");
    s.append(currency);
    s.append(" to ");
    s.append(to.as_str());
    s
}

/// The description stored with a withdrawal.
pub fn withdrawal_description(amount: &Amount, currency: &str, from: WalletType) -> (r: String)
    ensures
        r@ == "Withdrawal "@ + decimal_text(amount.parts()) + " "@ + currency@ + " from "@ + wallet_type_text(from),
{
    let mut s = String::from_str("Withdrawal ");
    s.append(amount.to_text().as_str());
    s.append(" ");
    s.append(currency);
    s.append(" from ");
    s.append(from.as_str());
    s
}

/// The description stored with a transfer between two wallets.
pub fn transfer_description(amount: &Amount, currency: &str, from: WalletType, to: WalletType) -> (r: String)
    ensures
        r@ == "Transfer "@ + decimal_text(amount.parts()) + " "@ + currency@ + " from "@ + wallet_type_text(from)
            + " to "@ + wallet_type_text(to),
{
    let mut s = String::from_str("Transfer ");
    s.append(amount.to_text().as_str());
    s.append(" ");
    s.append(currency);
    s.append(" from ");
    s.append(from.as_str());
    s.append(" to ");
    s.append(to.as_str());
    s
}

/// The available amount of a stored balance: the stored text read as a
/// decimal, zero where there is no balance or the text is no decimal.
pub fn stored_available(text: Option<&str>) -> (r: Amount)
    ensures
        match text {
            Some(t) => match decimal_parse(t@) {
                Ok(p) => r.parts() == p,
                Err(_) => r@ == 0,
            },
            None => r@ == 0,
        },
{
    match text {
        Some(t) => match Amount::parse(t) {
            Some(a) => a,
            None => Amount::zero(),
        },
        None => Amount::zero(),
    }
}

/// The message that refuses taking more than the balance holds.
pub open spec fn insufficient_text(balance: Amount, amount: Amount, currency: Seq<char>) -> Seq<char> {
    "Insufficient balance: "@ + decimal_text(balance.parts()) + " "@ + currency + " available, "@
        + decimal_text(amount.parts()) + " "@ + currency + " requested"@
}

/// Whether `amount` may be taken from a wallet holding `balance`: refused,
/// with a message, exactly when the balance is smaller.
pub fn check_funds(balance: &Amount, amount: &Amount, currency: &str) -> (r: Result<(), String>)
    ensures
        r is Err <==> balance@ < amount@,
        r matches Err(m) ==> m@ == insufficient_text(*balance, *amount, currency@),
{
    if balance.less_than(amount) {
        let mut s = String::from_str("Insufficient balance: ");
        s.append(balance.to_text().as_str());
        s.append(" ");
        s.append(currency);
        s.append(" available, ");
        s.append(amount.to_text().as_str());
        s.append(" ");
        s.append(currency);
        s.append(" requested");
        Err(s)
    } else {
        Ok(())
    }
}

/// A transfer needs two different wallets.
pub fn check_distinct_wallets(from: WalletType, to: WalletType) -> (r: Result<(), String>)
    ensures
        r is Err <==> from == to,
        r matches Err(m) ==> m@ == "Source and destination wallets must be different"@,
{
    if from == to {
        Err(String::from_str("Source and destination wallets must be different"))
    } else {
        Ok(())
    }
}

/// The available amount a new balance row starts with when a change
/// arrives for a currency the wallet does not hold yet: the change when it
/// is positive, else zero.
pub fn opening_available(delta: &Amount) -> (r: Amount)
    ensures
        delta@ > 0 ==> r.parts() == delta.parts(),
        delta@ <= 0 ==> r@ == 0,
{
    let zero = Amount::zero();
    if zero.less_than(delta) {
        *delta
    } else {
        zero
    }
}

} // verus!
