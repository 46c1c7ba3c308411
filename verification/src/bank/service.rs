//! The business operations of the bank: deposits, withdrawals, transfers,
//! salaries, insurance and dividends, and the anti-money-laundering checks.
//!
//! An operation reads what the database holds about the account, the
//! people and the wallets concerned, decides, and then writes. The
//! decisions stand here: each `check_*` function takes what was read and
//! says whether the operation may go ahead, with the error the operation
//! answers when it may not; each `*_posting` function builds what the
//! operation writes once it goes ahead.
use vstd::prelude::*;
use vstd::string::StringExecFns;
use crate::decimal::{decimal_parse, decimal_text, lemma_value_of_parts, units_of, Amount};
use crate::text::{concat_str, str_eq};
use super::error::{core_error_text, CoreError};
use super::event::{opt_view, AmlFlag, Event, EventMetadata, EventType};
use super::filter::has_flag;
use super::person::PersonType;
use super::rows::{AccountRow, BalanceRow, PersonRow, TransactionRow, WalletRow};
use super::wallet::{wallet_type_name, WalletType};

verus! {

/// The errors of the business operations.
#[derive(Debug)]
pub enum BusinessError {
    /// An amount that is not valid
    InvalidAmount(String),
    /// The balance does not cover the amount
    InsufficientBalance { required: Amount, available: Amount },
    /// Two currencies that should match do not
    CurrencyMismatch { expected: String, actual: String },
    /// The actor's role does not allow the operation
    OperationNotPermitted { person_type: String, operation: String },
    /// The account is not active
    AccountNotActive { account_id: String, status: String },
    /// The wallet is not active
    WalletNotActive { wallet_id: String, status: String },
    /// No such account
    AccountNotFound(String),
    /// No such wallet
    WalletNotFound(String),
    /// No such person
    PersonNotFound(String),
    /// No such currency
    CurrencyNotFound(String),
    /// The transaction needs an approval
    RequiresApproval { reason: String },
    /// The transaction is blocked by the AML rules
    AmlBlocked { reason: String },
    /// A domain error
    Core(CoreError),
}

/// The message of a business error.
pub open spec fn business_error_text(e: BusinessError) -> Seq<char> {
    match e {
        BusinessError::InvalidAmount(s) => "Invalid amount: "@ + s@,
        BusinessError::InsufficientBalance { required, available } =>
            "Insufficient balance: required "@ + decimal_text(required.parts()) + ", available "@
                + decimal_text(available.parts()),
        BusinessError::CurrencyMismatch { expected, actual } =>
            "Currency mismatch: expected "@ + expected@ + ", got "@ + actual@,
        BusinessError::OperationNotPermitted { person_type, operation } =>
            "Operation not permitted for "@ + person_type@ + ": "@ + operation@,
        BusinessError::AccountNotActive { account_id, status } =>
            "Account not active: "@ + account_id@ + " (status: "@ + status@ + ")"@,
        BusinessError::WalletNotActive { wallet_id, status } =>
            "Wallet not active: "@ + wallet_id@ + " (status: "@ + status@ + ")"@,
        BusinessError::AccountNotFound(s) => "Account not found: "@ + s@,
        BusinessError::WalletNotFound(s) => "Wallet not found: "@ + s@,
        BusinessError::PersonNotFound(s) => "Person not found: "@ + s@,
        BusinessError::CurrencyNotFound(s) => "Currency not found: "@ + s@,
        BusinessError::RequiresApproval { reason } => "Transaction requires approval: "@ + reason@,
        BusinessError::AmlBlocked { reason } => "Transaction blocked by AML: "@ + reason@,
        BusinessError::Core(c) => "Core error: "@ + core_error_text(c),
    }
}

impl BusinessError {
    /// A shortage of balance.
    pub fn insufficient_balance(required: Amount, available: Amount) -> (r: BusinessError)
        ensures
            r == (BusinessError::InsufficientBalance { required, available }),
    {
        BusinessError::InsufficientBalance { required, available }
    }

    /// An operation the role does not allow.
    pub fn not_permitted(person_type: &str, operation: &str) -> (r: BusinessError)
        ensures
            r matches BusinessError::OperationNotPermitted { person_type: p, operation: o }
                && p@ == person_type@ && o@ == operation@,
    {
        BusinessError::OperationNotPermitted { person_type: person_type.to_string(), operation: operation.to_string() }
    }

    /// An account that is not active.
    pub fn account_not_active(account_id: &str, status: &str) -> (r: BusinessError)
        ensures
            r matches BusinessError::AccountNotActive { account_id: a, status: s }
                && a@ == account_id@ && s@ == status@,
    {
        BusinessError::AccountNotActive { account_id: account_id.to_string(), status: status.to_string() }
    }

    /// The error's message.
    pub fn message(&self) -> (r: String)
        ensures
            r@ == business_error_text(*self),
    {
        proof {
            reveal_strlit("Invalid amount: ");
            reveal_strlit("Insufficient balance: required ");
            reveal_strlit(", available ");
            reveal_strlit("Currency mismatch: expected ");
            reveal_strlit(", got ");
            reveal_strlit("Operation not permitted for ");
            reveal_strlit(": ");
            reveal_strlit("Account not active: ");
            reveal_strlit(" (status: ");
            reveal_strlit(")");
            reveal_strlit("Wallet not active: ");
            reveal_strlit("Account not found: ");
            reveal_strlit("Wallet not found: ");
            reveal_strlit("Person not found: ");
            reveal_strlit("Currency not found: ");
            reveal_strlit("Transaction requires approval: ");
            reveal_strlit("Transaction blocked by AML: ");
            reveal_strlit("Core error: ");
        }
        match self {
            BusinessError::InvalidAmount(s) => concat_str("Invalid amount: ", s.as_str()),
            BusinessError::InsufficientBalance { required, available } => {
                let mut m = concat_str("Insufficient balance: required ", required.to_text().as_str());
                m.append(", available ");
                m.append(available.to_text().as_str());
                m
            },
            BusinessError::CurrencyMismatch { expected, actual } => {
                let mut m = concat_str("Currency mismatch: expected ", expected.as_str());
                m.append(", got ");
                m.append(actual.as_str());
                m
            },
            BusinessError::OperationNotPermitted { person_type, operation } => {
                let mut m = concat_str("Operation not permitted for ", person_type.as_str());
                m.append(": ");
                m.append(operation.as_str());
                m
            },
            BusinessError::AccountNotActive { account_id, status } => {
                let mut m = concat_str("Account not active: ", account_id.as_str());
                m.append(" (status: ");
                m.append(status.as_str());
                m.append(")");
                m
            },
            BusinessError::WalletNotActive { wallet_id, status } => {
                let mut m = concat_str("Wallet not active: ", wallet_id.as_str());
                m.append(" (status: ");
                m.append(status.as_str());
                m.append(")");
                m
            },
            BusinessError::AccountNotFound(s) => concat_str("Account not found: ", s.as_str()),
            BusinessError::WalletNotFound(s) => concat_str("Wallet not found: ", s.as_str()),
            BusinessError::PersonNotFound(s) => concat_str("Person not found: ", s.as_str()),
            BusinessError::CurrencyNotFound(s) => concat_str("Currency not found: ", s.as_str()),
            BusinessError::RequiresApproval { reason } => concat_str("Transaction requires approval: ", reason.as_str()),
            BusinessError::AmlBlocked { reason } => concat_str("Transaction blocked by AML: ", reason.as_str()),
            BusinessError::Core(c) => concat_str("Core error: ", c.message().as_str()),
        }
    }
}

/// What an operation gives back once it is done.
#[derive(Debug)]
pub struct TransactionResult {
    pub transaction_id: String,
    pub event_id: String,
    pub amount: Amount,
    pub currency: String,
    pub from_wallet: Option<WalletType>,
    pub to_wallet: Option<WalletType>,
}

impl TransactionResult {
    /// A result with no wallets named.
    pub fn new(transaction_id: &str, event_id: &str, amount: Amount, currency: &str) -> (r: TransactionResult)
        ensures
            r.transaction_id@ == transaction_id@,
            r.event_id@ == event_id@,
            r.amount == amount,
            r.currency@ == currency@,
            r.from_wallet is None,
            r.to_wallet is None,
    {
        TransactionResult {
            transaction_id: transaction_id.to_string(),
            event_id: event_id.to_string(),
            amount,
            currency: currency.to_string(),
            from_wallet: None,
            to_wallet: None,
        }
    }

    /// The result naming the wallet credited.
    pub fn with_to_wallet(self, wallet: WalletType) -> (r: TransactionResult)
        ensures
            r.to_wallet == Some(wallet),
            r.from_wallet == self.from_wallet,
            r.transaction_id == self.transaction_id,
            r.event_id == self.event_id,
            r.amount == self.amount,
            r.currency == self.currency,
    {
        TransactionResult { to_wallet: Some(wallet), ..self }
    }

    /// The result naming the wallet debited.
    pub fn with_from_wallet(self, wallet: WalletType) -> (r: TransactionResult)
        ensures
            r.from_wallet == Some(wallet),
            r.to_wallet == self.to_wallet,
            r.transaction_id == self.transaction_id,
            r.event_id == self.event_id,
            r.amount == self.amount,
            r.currency == self.currency,
    {
        TransactionResult { from_wallet: Some(wallet), ..self }
    }

    /// The result naming both wallets.
    pub fn with_wallets(self, from: WalletType, to: WalletType) -> (r: TransactionResult)
        ensures
            r.from_wallet == Some(from),
            r.to_wallet == Some(to),
            r.transaction_id == self.transaction_id,
            r.event_id == self.event_id,
            r.amount == self.amount,
            r.currency == self.currency,
    {
        TransactionResult { from_wallet: Some(from), to_wallet: Some(to), ..self }
    }
}

/// What a permitted operation writes and answers: the balance changes to
/// make, the transaction's row, the event, and the result.
#[derive(Debug)]
pub struct Posting {
    /// The wallet to debit, if any
    pub debit_wallet: Option<String>,
    /// The wallet to credit, if any
    pub credit_wallet: Option<String>,
    /// The currency moved
    pub currency: String,
    /// The amount moved
    pub amount: Amount,
    /// The transaction's row
    pub transaction: TransactionRow,
    /// The event to record
    pub event: Event,
    /// What the operation answers
    pub result: TransactionResult,
}

// ---------------------------------------------------------------------------
// What the checks read
// ---------------------------------------------------------------------------

/// The parts of the available balance that a stored balance holds: the
/// parsed text, or zero when there is no row or its text does not parse.
pub open spec fn available_parts(balance: Option<BalanceRow>) -> (i128, u32) {
    match balance {
        Some(b) => match decimal_parse(b.available@) {
            Ok(p) => p,
            Err(_) => (0i128, 0u32),
        },
        None => (0i128, 0u32),
    }
}

/// The value of a (mantissa, scale) pair.
pub open spec fn parts_value(p: (i128, u32)) -> int {
    units_of(p.0 as int, p.1 as nat)
}

/// The available balance of a stored balance row.
fn available_of(balance: Option<&BalanceRow>) -> (r: Amount)
    ensures
        r.parts() == available_parts(match balance { Some(b) => Some(*b), None => None }),
        r@ == parts_value(r.parts()),
{
    let r = match balance {
        Some(b) => match Amount::parse(b.available.as_str()) {
            Some(a) => a,
            None => Amount::zero(),
        },
        None => Amount::zero(),
    };
    proof { lemma_value_of_parts(r); }
    r
}

/// "active", the status of an account in use.
pub open spec fn is_active_text(s: Seq<char>) -> bool {
    s == "active"@
}

fn is_active_status(s: &str) -> (r: bool)
    ensures
        r == is_active_text(s@),
{
    proof { reveal_strlit("active"); }
    str_eq(s, "active")
}

/// The error when an amount is not positive: the operation's words and the amount.
pub open spec fn not_positive_text(what: Seq<char>, amount: Amount) -> Seq<char> {
    what + " must be positive: "@ + decimal_text(amount.parts())
}

fn not_positive(what: &str, amount: &Amount) -> (r: BusinessError)
    ensures
        r matches BusinessError::InvalidAmount(m) && m@ == not_positive_text(what@, *amount),
{
    proof { reveal_strlit(" must be positive: "); }
    let mut m = concat_str(what, " must be positive: ");
    m.append(amount.to_text().as_str());
    BusinessError::InvalidAmount(m)
}

/// The name of a missing wallet: the account and the wallet type's name.
pub open spec fn wallet_key_text(account_id: Seq<char>, t: WalletType) -> Seq<char> {
    account_id + "-"@ + wallet_type_name(t)
}

fn wallet_not_found(account_id: &str, t: WalletType) -> (r: BusinessError)
    ensures
        r matches BusinessError::WalletNotFound(m) && m@ == wallet_key_text(account_id@, t),
{
    proof { reveal_strlit("-"); }
    let mut m = concat_str(account_id, "-");
    m.append(t.name());
    BusinessError::WalletNotFound(m)
}

// ---------------------------------------------------------------------------
// The checks, stated over the texts of the errors
// ---------------------------------------------------------------------------

/// The text form of a business error's identity, for stating checks: two
/// errors with the same form mean the same thing.
pub open spec fn error_form(e: BusinessError) -> (int, Seq<char>, Seq<char>, int, int) {
    match e {
        BusinessError::InvalidAmount(s) => (0, s@, Seq::empty(), 0, 0),
        BusinessError::InsufficientBalance { required, available } =>
            (1, Seq::empty(), Seq::empty(), required@, parts_value(available.parts())),
        BusinessError::CurrencyMismatch { expected, actual } => (2, expected@, actual@, 0, 0),
        BusinessError::OperationNotPermitted { person_type, operation } => (3, person_type@, operation@, 0, 0),
        BusinessError::AccountNotActive { account_id, status } => (4, account_id@, status@, 0, 0),
        BusinessError::WalletNotActive { wallet_id, status } => (5, wallet_id@, status@, 0, 0),
        BusinessError::AccountNotFound(s) => (6, s@, Seq::empty(), 0, 0),
        BusinessError::WalletNotFound(s) => (7, s@, Seq::empty(), 0, 0),
        BusinessError::PersonNotFound(s) => (8, s@, Seq::empty(), 0, 0),
        BusinessError::CurrencyNotFound(s) => (9, s@, Seq::empty(), 0, 0),
        BusinessError::RequiresApproval { reason } => (10, reason@, Seq::empty(), 0, 0),
        BusinessError::AmlBlocked { reason } => (11, reason@, Seq::empty(), 0, 0),
        BusinessError::Core(c) => (12, core_error_text(c), Seq::empty(), 0, 0),
    }
}

/// The kinds of outcome of a check, with the texts that identify the error.
pub enum Verdict {
    /// The operation goes ahead
    Allowed,
    /// It fails with an error of this form
    Refused((int, Seq<char>, Seq<char>, int, int)),
}

/// The verdict a check's result gives.
pub open spec fn verdict_of(r: Result<(), BusinessError>) -> Verdict {
    match r {
        Ok(()) => Verdict::Allowed,
        Err(e) => Verdict::Refused(error_form(e)),
    }
}

/// The form of an amount error.
pub open spec fn invalid_amount_form(what: Seq<char>, amount: Amount) -> Verdict {
    Verdict::Refused((0, not_positive_text(what, amount), Seq::empty(), 0, 0))
}

/// The verdict of the account checks, if they refuse.
pub open spec fn account_verdict(account_id: Seq<char>, account: Option<AccountRow>, need_active: bool) -> Option<Verdict> {
    match account {
        None => Some(Verdict::Refused((6, account_id, Seq::empty(), 0, 0))),
        Some(a) => if need_active && !is_active_text(a.status@) {
            Some(Verdict::Refused((4, account_id, a.status@, 0, 0)))
        } else {
            None
        },
    }
}

/// The verdict of a wallet lookup, if it refuses.
pub open spec fn wallet_verdict(account_id: Seq<char>, t: WalletType, wallet: Option<WalletRow>) -> Option<Verdict> {
    match wallet {
        None => Some(Verdict::Refused((7, wallet_key_text(account_id, t), Seq::empty(), 0, 0))),
        Some(_) => None,
    }
}

/// The verdict of the balance check, if it refuses: the available balance
/// must cover the amount.
pub open spec fn balance_verdict(amount: Amount, balance: Option<BalanceRow>) -> Option<Verdict> {
    if parts_value(available_parts(balance)) < amount@ {
        Some(Verdict::Refused((1, Seq::empty(), Seq::empty(), amount@, parts_value(available_parts(balance)))))
    } else {
        None
    }
}

/// The verdict of a role check on a person, if it refuses: the person must
/// exist and have the role.
pub open spec fn role_verdict(person_id: Seq<char>, person: Option<PersonRow>, role: Seq<char>, operation: Seq<char>) -> Option<Verdict> {
    match person {
        None => Some(Verdict::Refused((8, person_id, Seq::empty(), 0, 0))),
        Some(p) => if p.person_type@ != role {
            Some(Verdict::Refused((3, p.person_type@, operation, 0, 0)))
        } else {
            None
        },
    }
}

/// The first refusal of a list of checks, in order; allowed when none refuses.
pub open spec fn first_refusal(checks: Seq<Option<Verdict>>) -> Verdict
    decreases checks.len(),
{
    if checks.len() == 0 {
        Verdict::Allowed
    } else {
        match checks[0] {
            Some(v) => v,
            None => first_refusal(checks.drop_first()),
        }
    }
}

/// Whether an amount is above zero.
fn is_positive(amount: &Amount) -> (r: bool)
    ensures
        r == (amount@ > 0),
{
    Amount::zero().less_than(amount)
}

fn check_account(account_id: &str, account: Option<&AccountRow>, need_active: bool) -> (r: Result<(), BusinessError>)
    ensures
        match account_verdict(account_id@, match account { Some(a) => Some(*a), None => None }, need_active) {
            Some(v) => verdict_of(r) == v,
            None => r is Ok,
        },
{
    match account {
        None => Err(BusinessError::AccountNotFound(account_id.to_string())),
        Some(a) => {
            if need_active && !is_active_status(a.status.as_str()) {
                Err(BusinessError::account_not_active(account_id, a.status.as_str()))
            } else {
                Ok(())
            }
        },
    }
}

fn check_wallet(account_id: &str, t: WalletType, wallet: Option<&WalletRow>) -> (r: Result<(), BusinessError>)
    ensures
        match wallet_verdict(account_id@, t, match wallet { Some(w) => Some(*w), None => None }) {
            Some(v) => verdict_of(r) == v,
            None => r is Ok,
        },
{
    match wallet {
        None => Err(wallet_not_found(account_id, t)),
        Some(_) => Ok(()),
    }
}

fn check_balance(amount: &Amount, balance: Option<&BalanceRow>) -> (r: Result<(), BusinessError>)
    ensures
        match balance_verdict(*amount, match balance { Some(b) => Some(*b), None => None }) {
            Some(v) => verdict_of(r) == v,
            None => r is Ok,
        },
{
    let available = available_of(balance);
    if available.less_than(amount) {
        Err(BusinessError::insufficient_balance(*amount, available))
    } else {
        Ok(())
    }
}

fn check_role(person_id: &str, person: Option<&PersonRow>, role: &str, operation: &str) -> (r: Result<(), BusinessError>)
    ensures
        match role_verdict(person_id@, match person { Some(p) => Some(*p), None => None }, role@, operation@) {
            Some(v) => verdict_of(r) == v,
            None => r is Ok,
        },
{
    match person {
        None => Err(BusinessError::PersonNotFound(person_id.to_string())),
        Some(p) => {
            if !str_eq(p.person_type.as_str(), role) {
                Err(BusinessError::not_permitted(p.person_type.as_str(), operation))
            } else {
                Ok(())
            }
        },
    }
}

/// An optional reference as an optional value.
pub open spec fn deref_opt<T>(o: Option<&T>) -> Option<T> {
    match o {
        Some(x) => Some(*x),
        None => None,
    }
}

/// The verdict of a deposit: a positive amount, an active account, and its
/// Funding wallet.
pub open spec fn deposit_verdict(account_id: Seq<char>, amount: Amount, account: Option<AccountRow>,
    wallet: Option<WalletRow>) -> Verdict
{
    first_refusal(seq![
        if amount@ > 0 { None } else { Some(invalid_amount_form("Deposit amount"@, amount)) },
        account_verdict(account_id, account, true),
        wallet_verdict(account_id, WalletType::Funding, wallet),
    ])
}

/// Whether a deposit may go ahead, given the account and its Funding wallet
/// as read; the error it answers when it may not.
pub fn check_deposit(account_id: &str, amount: Amount, account: Option<&AccountRow>,
    funding_wallet: Option<&WalletRow>) -> (r: Result<(), BusinessError>)
    ensures
        verdict_of(r) == deposit_verdict(account_id@, amount, deref_opt(account), deref_opt(funding_wallet)),
{
    proof { reveal_strlit("Deposit amount"); reveal_with_fuel(first_refusal, 4); }
    if !is_positive(&amount) {
        return Err(not_positive("Deposit amount", &amount));
    }
    match check_account(account_id, account, true) {
        Err(e) => return Err(e),
        Ok(()) => {},
    }
    check_wallet(account_id, WalletType::Funding, funding_wallet)
}


/// The verdict of a withdrawal: a positive amount, an active account, its
/// Funding wallet, and a balance that covers the amount.
pub open spec fn withdraw_verdict(account_id: Seq<char>, amount: Amount, account: Option<AccountRow>,
    wallet: Option<WalletRow>, balance: Option<BalanceRow>) -> Verdict
{
    first_refusal(seq![
        if amount@ > 0 { None } else { Some(invalid_amount_form("Withdrawal amount"@, amount)) },
        account_verdict(account_id, account, true),
        wallet_verdict(account_id, WalletType::Funding, wallet),
        balance_verdict(amount, balance),
    ])
}

/// Whether a withdrawal may go ahead, given the account, its Funding wallet
/// and that wallet's balance in the currency as read (no balance when
/// there is no row or it could not be read).
pub fn check_withdraw(account_id: &str, amount: Amount, account: Option<&AccountRow>,
    funding_wallet: Option<&WalletRow>, balance: Option<&BalanceRow>) -> (r: Result<(), BusinessError>)
    ensures
        verdict_of(r) == withdraw_verdict(account_id@, amount, deref_opt(account), deref_opt(funding_wallet),
            deref_opt(balance)),
{
    proof { reveal_strlit("Withdrawal amount"); reveal_with_fuel(first_refusal, 5); }
    if !is_positive(&amount) {
        return Err(not_positive("Withdrawal amount", &amount));
    }
    match check_account(account_id, account, true) {
        Err(e) => return Err(e),
        Ok(()) => {},
    }
    match check_wallet(account_id, WalletType::Funding, funding_wallet) {
        Err(e) => return Err(e),
        Ok(()) => {},
    }
    check_balance(&amount, balance)
}

/// The verdict of a transfer between two wallets of an account: a positive
/// amount, two different wallets, an active account, both wallets, and a
/// balance in the source wallet that covers the amount.
pub open spec fn transfer_verdict(account_id: Seq<char>, from: WalletType, to: WalletType, amount: Amount,
    account: Option<AccountRow>, from_wallet: Option<WalletRow>, to_wallet: Option<WalletRow>,
    balance: Option<BalanceRow>) -> Verdict
{
    first_refusal(seq![
        if amount@ > 0 { None } else { Some(invalid_amount_form("Transfer amount"@, amount)) },
        if from != to { None } else { Some(Verdict::Refused((0, "Cannot transfer to the same wallet"@, Seq::empty(), 0, 0))) },
        account_verdict(account_id, account, true),
        wallet_verdict(account_id, from, from_wallet),
        wallet_verdict(account_id, to, to_wallet),
        balance_verdict(amount, balance),
    ])
}

/// Whether a transfer may go ahead, given the account, the two wallets and
/// the source wallet's balance in the currency as read.
pub fn check_transfer(account_id: &str, from: WalletType, to: WalletType, amount: Amount,
    account: Option<&AccountRow>, from_wallet: Option<&WalletRow>, to_wallet: Option<&WalletRow>,
    balance: Option<&BalanceRow>) -> (r: Result<(), BusinessError>)
    ensures
        verdict_of(r) == transfer_verdict(account_id@, from, to, amount, deref_opt(account), deref_opt(from_wallet),
            deref_opt(to_wallet), deref_opt(balance)),
{
    proof {
        reveal_strlit("Transfer amount");
        reveal_strlit("Cannot transfer to the same wallet");
        reveal_with_fuel(first_refusal, 7);
    }
    if !is_positive(&amount) {
        return Err(not_positive("Transfer amount", &amount));
    }
    if from == to {
        return Err(BusinessError::InvalidAmount(String::from_str("Cannot transfer to the same wallet")));
    }
    match check_account(account_id, account, true) {
        Err(e) => return Err(e),
        Ok(()) => {},
    }
    match check_wallet(account_id, from, from_wallet) {
        Err(e) => return Err(e),
        Ok(()) => {},
    }
    match check_wallet(account_id, to, to_wallet) {
        Err(e) => return Err(e),
        Ok(()) => {},
    }
    check_balance(&amount, balance)
}

/// The person an account belongs to, as read, given the account.
pub open spec fn owner_id(account: Option<AccountRow>) -> Seq<char> {
    match account {
        Some(a) => a.person_id@,
        None => Seq::empty(),
    }
}

/// The verdict of the buyer check, if it refuses: insurance is paid from
/// the purchasing employee's own account, so an account owned by someone
/// else is not permitted.
pub open spec fn buyer_verdict(employee_id: Seq<char>, account: Option<AccountRow>, person: Option<PersonRow>)
    -> Option<Verdict>
{
    if owner_id(account) == employee_id {
        None
    } else {
        Some(Verdict::Refused((3, match person { Some(p) => p.person_type@, None => Seq::empty() },
            "purchase_insurance"@, 0, 0)))
    }
}

/// Whether the account belongs to the buyer.
fn check_buyer(employee_id: &str, account: Option<&AccountRow>, person: Option<&PersonRow>)
    -> (r: Result<(), BusinessError>)
    ensures
        match buyer_verdict(employee_id@, deref_opt(account), deref_opt(person)) {
            Some(v) => verdict_of(r) == v,
            None => r is Ok,
        },
{
    proof { reveal_strlit("purchase_insurance"); }
    let owner: &str = match account {
        Some(a) => a.person_id.as_str(),
        None => "",
    };
    proof { reveal_strlit(""); assert(""@ =~= Seq::<char>::empty()); }
    if str_eq(owner, employee_id) {
        Ok(())
    } else {
        let t: &str = match person {
            Some(p) => p.person_type.as_str(),
            None => "",
        };
        Err(BusinessError::not_permitted(t, "purchase_insurance"))
    }
}

/// The verdict of a salary payment: a positive amount, a manager paying,
/// an active account, belonging to an employee, with a Funding wallet.
pub open spec fn salary_verdict(manager_id: Seq<char>, account_id: Seq<char>, amount: Amount,
    manager: Option<PersonRow>, account: Option<AccountRow>, employee: Option<PersonRow>,
    wallet: Option<WalletRow>) -> Verdict
{
    first_refusal(seq![
        if amount@ > 0 { None } else { Some(invalid_amount_form("Salary"@, amount)) },
        role_verdict(manager_id, manager, "manager"@, "pay_salary"@),
        account_verdict(account_id, account, true),
        role_verdict(owner_id(account), employee, "employee"@, "receive_salary"@),
        wallet_verdict(account_id, WalletType::Funding, wallet),
    ])
}

/// Whether a manager's salary payment may go ahead, given the manager, the
/// employee's account, its owner and its Funding wallet as read.
pub fn check_pay_salary(manager_id: &str, account_id: &str, amount: Amount, manager: Option<&PersonRow>,
    account: Option<&AccountRow>, employee: Option<&PersonRow>, funding_wallet: Option<&WalletRow>)
    -> (r: Result<(), BusinessError>)
    ensures
        verdict_of(r) == salary_verdict(manager_id@, account_id@, amount, deref_opt(manager), deref_opt(account),
            deref_opt(employee), deref_opt(funding_wallet)),
{
    proof {
        reveal_strlit("Salary");
        reveal_strlit("manager");
        reveal_strlit("pay_salary");
        reveal_strlit("employee");
        reveal_strlit("receive_salary");
        reveal_with_fuel(first_refusal, 6);
    }
    if !is_positive(&amount) {
        return Err(not_positive("Salary", &amount));
    }
    match check_role(manager_id, manager, "manager", "pay_salary") {
        Err(e) => return Err(e),
        Ok(()) => {},
    }
    match check_account(account_id, account, true) {
        Err(e) => return Err(e),
        Ok(()) => {},
    }
    let owner: &str = match account {
        Some(a) => a.person_id.as_str(),
        None => "",
    };
    match check_role(owner, employee, "employee", "receive_salary") {
        Err(e) => return Err(e),
        Ok(()) => {},
    }
    check_wallet(account_id, WalletType::Funding, funding_wallet)
}

/// The verdict of an insurance purchase: a positive cost, an active
/// account, belonging to an employee, with a Funding wallet whose balance
/// covers the cost.
pub open spec fn insurance_verdict(employee_id: Seq<char>, account_id: Seq<char>, cost: Amount,
    account: Option<AccountRow>, person: Option<PersonRow>, wallet: Option<WalletRow>, balance: Option<BalanceRow>)
    -> Verdict
{
    first_refusal(seq![
        if cost@ > 0 { None } else { Some(invalid_amount_form("Insurance cost"@, cost)) },
        account_verdict(account_id, account, true),
        role_verdict(owner_id(account), person, "employee"@, "purchase_insurance"@),
        buyer_verdict(employee_id, account, person),
        wallet_verdict(account_id, WalletType::Funding, wallet),
        balance_verdict(cost, balance),
    ])
}

/// Whether an employee's insurance purchase may go ahead, given the
/// account, its owner, its Funding wallet and that wallet's balance.
pub fn check_purchase_insurance(employee_id: &str, account_id: &str, cost: Amount, account: Option<&AccountRow>,
    person: Option<&PersonRow>, funding_wallet: Option<&WalletRow>, balance: Option<&BalanceRow>)
    -> (r: Result<(), BusinessError>)
    ensures
        verdict_of(r) == insurance_verdict(employee_id@, account_id@, cost, deref_opt(account), deref_opt(person),
            deref_opt(funding_wallet), deref_opt(balance)),
{
    proof {
        reveal_strlit("Insurance cost");
        reveal_strlit("employee");
        reveal_strlit("purchase_insurance");
        reveal_with_fuel(first_refusal, 7);
    }
    if !is_positive(&cost) {
        return Err(not_positive("Insurance cost", &cost));
    }
    match check_account(account_id, account, true) {
        Err(e) => return Err(e),
        Ok(()) => {},
    }
    let owner: &str = match account {
        Some(a) => a.person_id.as_str(),
        None => "",
    };
    match check_role(owner, person, "employee", "purchase_insurance") {
        Err(e) => return Err(e),
        Ok(()) => {},
    }
    match check_buyer(employee_id, account, person) {
        Err(e) => return Err(e),
        Ok(()) => {},
    }
    match check_wallet(account_id, WalletType::Funding, funding_wallet) {
        Err(e) => return Err(e),
        Ok(()) => {},
    }
    check_balance(&cost, balance)
}

/// The verdict of a dividend payment: a positive amount, a manager paying,
/// an account (active or not) belonging to a shareholder, with a Funding
/// wallet.
pub open spec fn dividend_verdict(manager_id: Seq<char>, account_id: Seq<char>, amount: Amount,
    manager: Option<PersonRow>, account: Option<AccountRow>, shareholder: Option<PersonRow>,
    wallet: Option<WalletRow>) -> Verdict
{
    first_refusal(seq![
        if amount@ > 0 { None } else { Some(invalid_amount_form("Dividend"@, amount)) },
        role_verdict(manager_id, manager, "manager"@, "pay_dividend"@),
        account_verdict(account_id, account, false),
        role_verdict(owner_id(account), shareholder, "shareholder"@, "receive_dividend"@),
        wallet_verdict(account_id, WalletType::Funding, wallet),
    ])
}

/// Whether a manager's dividend payment may go ahead, given the manager,
/// the shareholder's account, its owner and its Funding wallet as read.
pub fn check_pay_dividend(manager_id: &str, account_id: &str, amount: Amount, manager: Option<&PersonRow>,
    account: Option<&AccountRow>, shareholder: Option<&PersonRow>, funding_wallet: Option<&WalletRow>)
    -> (r: Result<(), BusinessError>)
    ensures
        verdict_of(r) == dividend_verdict(manager_id@, account_id@, amount, deref_opt(manager), deref_opt(account),
            deref_opt(shareholder), deref_opt(funding_wallet)),
{
    proof {
        reveal_strlit("Dividend");
        reveal_strlit("manager");
        reveal_strlit("pay_dividend");
        reveal_strlit("shareholder");
        reveal_strlit("receive_dividend");
        reveal_with_fuel(first_refusal, 6);
    }
    if !is_positive(&amount) {
        return Err(not_positive("Dividend", &amount));
    }
    match check_role(manager_id, manager, "manager", "pay_dividend") {
        Err(e) => return Err(e),
        Ok(()) => {},
    }
    match check_account(account_id, account, false) {
        Err(e) => return Err(e),
        Ok(()) => {},
    }
    let owner: &str = match account {
        Some(a) => a.person_id.as_str(),
        None => "",
    };
    match check_role(owner, shareholder, "shareholder", "receive_dividend") {
        Err(e) => return Err(e),
        Ok(()) => {},
    }
    check_wallet(account_id, WalletType::Funding, funding_wallet)
}

/// Whether a person may audit: the person must exist and be an auditor.
pub fn check_auditor(auditor_id: &str, person: Option<&PersonRow>) -> (r: Result<(), BusinessError>)
    ensures
        match role_verdict(auditor_id@, deref_opt(person), "auditor"@, "audit"@) {
            Some(v) => verdict_of(r) == v,
            None => r is Ok,
        },
{
    proof {
        reveal_strlit("auditor");
        reveal_strlit("audit");
    }
    check_role(auditor_id, person, "auditor", "audit")
}


// ---------------------------------------------------------------------------
// What a permitted operation writes
// ---------------------------------------------------------------------------

/// "<amount> <currency>", the amount as `Decimal` prints it.
pub open spec fn amount_text(amount: Amount, currency: Seq<char>) -> Seq<char> {
    decimal_text(amount.parts()) + " "@ + currency
}

/// A transaction row with the given values, written now.
pub open spec fn row_is(t: TransactionRow, id: Seq<char>, account_id: Seq<char>, wallet_id: Seq<char>,
    tx_type: Seq<char>, amount: Amount, currency: Seq<char>, description: Seq<char>) -> bool
{
    &&& t.id@ == id
    &&& t.account_id@ == account_id
    &&& t.wallet_id@ == wallet_id
    &&& t.tx_type@ == tx_type
    &&& t.amount@ == decimal_text(amount.parts())
    &&& t.currency_code@ == currency
    &&& opt_view(t.description) == Some(description)
}

/// An event with the given values, with no flags and no metadata.
pub open spec fn event_is(e: Event, id: Seq<char>, event_type: EventType, actor_id: Seq<char>, role: PersonType,
    account_id: Seq<char>, from: Option<WalletType>, to: Option<WalletType>, amount: Amount, currency: Seq<char>,
    description: Option<Seq<char>>) -> bool
{
    &&& e.event_id@ == id
    &&& e.event_type == event_type
    &&& e.actor_id@ == actor_id
    &&& e.actor_role == role
    &&& e.account_id@ == account_id
    &&& e.from_wallet == from
    &&& e.to_wallet == to
    &&& e.amount == Some(amount)
    &&& opt_view(e.currency) == Some(currency)
    &&& opt_view(e.description) == description
    &&& e.aml_flags@.len() == 0
    &&& e.metadata.is_empty()
}

/// A result with the given values.
pub open spec fn result_is(r: TransactionResult, txn_id: Seq<char>, event_id: Seq<char>, amount: Amount,
    currency: Seq<char>, from: Option<WalletType>, to: Option<WalletType>) -> bool
{
    &&& r.transaction_id@ == txn_id
    &&& r.event_id@ == event_id
    &&& r.amount == amount
    &&& r.currency@ == currency
    &&& r.from_wallet == from
    &&& r.to_wallet == to
}

/// A posting's balance changes.
pub open spec fn moves(p: Posting, debit: Option<Seq<char>>, credit: Option<Seq<char>>, amount: Amount,
    currency: Seq<char>) -> bool
{
    &&& opt_view(p.debit_wallet) == debit
    &&& opt_view(p.credit_wallet) == credit
    &&& p.amount == amount
    &&& p.currency@ == currency
}

/// Appends "<amount> <currency>".
fn push_amount(s: &mut String, amount: &Amount, currency: &str)
    ensures
        final(s)@ == old(s)@ + amount_text(*amount, currency@),
{
    proof { reveal_strlit(" "); }
    s.append(amount.to_text().as_str());
    s.append(" ");
    s.append(currency);
}

/// A transaction row, written now.
fn transaction_row(id: &str, account_id: &str, wallet_id: &str, tx_type: &str, amount: &Amount, currency: &str,
    description: String) -> (t: TransactionRow)
    ensures
        row_is(t, id@, account_id@, wallet_id@, tx_type@, *amount, currency@, description@),
{
    TransactionRow {
        id: id.to_string(),
        account_id: account_id.to_string(),
        wallet_id: wallet_id.to_string(),
        tx_type: tx_type.to_string(),
        amount: amount.to_text(),
        currency_code: currency.to_string(),
        description: Some(description),
        created_at: crate::clock::now_millis(),
    }
}

/// What a deposit writes: a credit of the Funding wallet, a "deposit" row
/// described "Deposit <amount> <currency>", the deposit event, and a result
/// naming the Funding wallet credited.
pub fn deposit_posting(txn_id: &str, event_id: &str, actor_id: &str, account_id: &str, wallet_id: &str,
    amount: Amount, currency: &str) -> (p: Posting)
    ensures
        moves(p, None, Some(wallet_id@), amount, currency@),
        row_is(p.transaction, txn_id@, account_id@, wallet_id@, "deposit"@, amount, currency@,
            "Deposit "@ + amount_text(amount, currency@)),
        event_is(p.event, event_id@, EventType::Deposit, actor_id@, PersonType::Customer, account_id@, None,
            Some(WalletType::Funding), amount, currency@, None),
        result_is(p.result, txn_id@, event_id@, amount, currency@, None, Some(WalletType::Funding)),
{
    proof { reveal_strlit("deposit"); reveal_strlit("Deposit "); }
    let mut d = String::from_str("Deposit ");
    push_amount(&mut d, &amount, currency);
    Posting {
        debit_wallet: None,
        credit_wallet: Some(wallet_id.to_string()),
        currency: currency.to_string(),
        amount,
        transaction: transaction_row(txn_id, account_id, wallet_id, "deposit", &amount, currency, d),
        event: Event::deposit(event_id, actor_id, account_id, amount, currency),
        result: TransactionResult::new(txn_id, event_id, amount, currency).with_to_wallet(WalletType::Funding),
    }
}

/// What a withdrawal writes: a debit of the Funding wallet, a "withdrawal"
/// row described "Withdraw <amount> <currency>", the withdrawal event, and
/// a result naming the Funding wallet debited.
pub fn withdraw_posting(txn_id: &str, event_id: &str, actor_id: &str, account_id: &str, wallet_id: &str,
    amount: Amount, currency: &str) -> (p: Posting)
    ensures
        moves(p, Some(wallet_id@), None, amount, currency@),
        row_is(p.transaction, txn_id@, account_id@, wallet_id@, "withdrawal"@, amount, currency@,
            "Withdraw "@ + amount_text(amount, currency@)),
        event_is(p.event, event_id@, EventType::Withdrawal, actor_id@, PersonType::Customer, account_id@,
            Some(WalletType::Funding), None, amount, currency@, None),
        result_is(p.result, txn_id@, event_id@, amount, currency@, Some(WalletType::Funding), None),
{
    proof { reveal_strlit("withdrawal"); reveal_strlit("Withdraw "); }
    let mut d = String::from_str("Withdraw ");
    push_amount(&mut d, &amount, currency);
    Posting {
        debit_wallet: Some(wallet_id.to_string()),
        credit_wallet: None,
        currency: currency.to_string(),
        amount,
        transaction: transaction_row(txn_id, account_id, wallet_id, "withdrawal", &amount, currency, d),
        event: Event::withdrawal(event_id, actor_id, account_id, amount, currency),
        result: TransactionResult::new(txn_id, event_id, amount, currency).with_from_wallet(WalletType::Funding),
    }
}

/// What a transfer writes: a debit of the source wallet and a credit of the
/// destination, an "internal_transfer" row on the source wallet described
/// "Transfer <amount> <currency> from <From> to <To>", the transfer event,
/// and a result naming both wallets.
pub fn transfer_posting(txn_id: &str, event_id: &str, actor_id: &str, account_id: &str, from: WalletType,
    to: WalletType, from_wallet_id: &str, to_wallet_id: &str, amount: Amount, currency: &str) -> (p: Posting)
    ensures
        moves(p, Some(from_wallet_id@), Some(to_wallet_id@), amount, currency@),
        row_is(p.transaction, txn_id@, account_id@, from_wallet_id@, "internal_transfer"@, amount, currency@,
            "Transfer "@ + amount_text(amount, currency@) + " from "@ + wallet_type_name(from) + " to "@
                + wallet_type_name(to)),
        event_is(p.event, event_id@, EventType::InternalTransfer, actor_id@, PersonType::Customer, account_id@,
            Some(from), Some(to), amount, currency@, None),
        result_is(p.result, txn_id@, event_id@, amount, currency@, Some(from), Some(to)),
{
    proof {
        reveal_strlit("internal_transfer");
        reveal_strlit("Transfer ");
        reveal_strlit(" from ");
        reveal_strlit(" to ");
    }
    let mut d = String::from_str("Transfer ");
    push_amount(&mut d, &amount, currency);
    d.append(" from ");
    d.append(from.name());
    d.append(" to ");
    d.append(to.name());
    Posting {
        debit_wallet: Some(from_wallet_id.to_string()),
        credit_wallet: Some(to_wallet_id.to_string()),
        currency: currency.to_string(),
        amount,
        transaction: transaction_row(txn_id, account_id, from_wallet_id, "internal_transfer", &amount, currency, d),
        event: Event::internal_transfer(event_id, actor_id, account_id, from, to, amount, currency),
        result: TransactionResult::new(txn_id, event_id, amount, currency).with_wallets(from, to),
    }
}

/// What a salary payment writes: a credit of the employee's Funding wallet,
/// a "salary_payment" row described "Salary: <amount> <currency>", the
/// manager's salary event described "Salary payment to <name>", and a
/// result naming the Funding wallet credited.
pub fn salary_posting(txn_id: &str, event_id: &str, manager_id: &str, account_id: &str, wallet_id: &str,
    employee_name: &str, amount: Amount, currency: &str) -> (p: Posting)
    ensures
        moves(p, None, Some(wallet_id@), amount, currency@),
        row_is(p.transaction, txn_id@, account_id@, wallet_id@, "salary_payment"@, amount, currency@,
            "Salary: "@ + amount_text(amount, currency@)),
        event_is(p.event, event_id@, EventType::SalaryPayment, manager_id@, PersonType::Manager, account_id@, None,
            Some(WalletType::Funding), amount, currency@, Some("Salary payment to "@ + employee_name@)),
        result_is(p.result, txn_id@, event_id@, amount, currency@, None, Some(WalletType::Funding)),
{
    proof {
        reveal_strlit("salary_payment");
        reveal_strlit("Salary: ");
        reveal_strlit("Salary payment to ");
    }
    let mut d = String::from_str("Salary: ");
    push_amount(&mut d, &amount, currency);
    let desc = concat_str("Salary payment to ", employee_name);
    let event = Event::new(event_id.to_string(), EventType::SalaryPayment, manager_id.to_string(),
        PersonType::Manager, account_id.to_string())
        .with_to_wallet(WalletType::Funding)
        .with_amount(amount, currency)
        .with_description(desc.as_str());
    Posting {
        debit_wallet: None,
        credit_wallet: Some(wallet_id.to_string()),
        currency: currency.to_string(),
        amount,
        transaction: transaction_row(txn_id, account_id, wallet_id, "salary_payment", &amount, currency, d),
        event,
        result: TransactionResult::new(txn_id, event_id, amount, currency).with_to_wallet(WalletType::Funding),
    }
}

/// What an insurance purchase writes: a debit of the employee's Funding
/// wallet, an "insurance_purchase" row described
/// "Insurance: <plan> - <cost> <currency>", the employee's event described
/// "Insurance plan: <plan>", and a result naming the Funding wallet debited.
pub fn insurance_posting(txn_id: &str, event_id: &str, employee_id: &str, account_id: &str, wallet_id: &str,
    plan_name: &str, cost: Amount, currency: &str) -> (p: Posting)
    ensures
        moves(p, Some(wallet_id@), None, cost, currency@),
        row_is(p.transaction, txn_id@, account_id@, wallet_id@, "insurance_purchase"@, cost, currency@,
            "Insurance: "@ + plan_name@ + " - "@ + amount_text(cost, currency@)),
        event_is(p.event, event_id@, EventType::InsurancePurchase, employee_id@, PersonType::Employee, account_id@,
            Some(WalletType::Funding), None, cost, currency@, Some("Insurance plan: "@ + plan_name@)),
        result_is(p.result, txn_id@, event_id@, cost, currency@, Some(WalletType::Funding), None),
{
    proof {
        reveal_strlit("insurance_purchase");
        reveal_strlit("Insurance: ");
        reveal_strlit(" - ");
        reveal_strlit("Insurance plan: ");
    }
    let mut d = concat_str("Insurance: ", plan_name);
    d.append(" - ");
    push_amount(&mut d, &cost, currency);
    let desc = concat_str("Insurance plan: ", plan_name);
    let event = Event::new(event_id.to_string(), EventType::InsurancePurchase, employee_id.to_string(),
        PersonType::Employee, account_id.to_string())
        .with_from_wallet(WalletType::Funding)
        .with_amount(cost, currency)
        .with_description(desc.as_str());
    Posting {
        debit_wallet: Some(wallet_id.to_string()),
        credit_wallet: None,
        currency: currency.to_string(),
        amount: cost,
        transaction: transaction_row(txn_id, account_id, wallet_id, "insurance_purchase", &cost, currency, d),
        event,
        result: TransactionResult::new(txn_id, event_id, cost, currency).with_from_wallet(WalletType::Funding),
    }
}

/// What a dividend payment writes: a credit of the shareholder's Funding
/// wallet, a "dividend_payment" row described "Dividend: <amount> <currency>",
/// the manager's dividend event described "Dividend payment to <name>", and
/// a result naming the Funding wallet credited.
pub fn dividend_posting(txn_id: &str, event_id: &str, manager_id: &str, account_id: &str, wallet_id: &str,
    shareholder_name: &str, amount: Amount, currency: &str) -> (p: Posting)
    ensures
        moves(p, None, Some(wallet_id@), amount, currency@),
        row_is(p.transaction, txn_id@, account_id@, wallet_id@, "dividend_payment"@, amount, currency@,
            "Dividend: "@ + amount_text(amount, currency@)),
        event_is(p.event, event_id@, EventType::DividendPayment, manager_id@, PersonType::Manager, account_id@, None,
            Some(WalletType::Funding), amount, currency@, Some("Dividend payment to "@ + shareholder_name@)),
        result_is(p.result, txn_id@, event_id@, amount, currency@, None, Some(WalletType::Funding)),
{
    proof {
        reveal_strlit("dividend_payment");
        reveal_strlit("Dividend: ");
        reveal_strlit("Dividend payment to ");
    }
    let mut d = String::from_str("Dividend: ");
    push_amount(&mut d, &amount, currency);
    let desc = concat_str("Dividend payment to ", shareholder_name);
    let event = Event::new(event_id.to_string(), EventType::DividendPayment, manager_id.to_string(),
        PersonType::Manager, account_id.to_string())
        .with_to_wallet(WalletType::Funding)
        .with_amount(amount, currency)
        .with_description(desc.as_str());
    Posting {
        debit_wallet: None,
        credit_wallet: Some(wallet_id.to_string()),
        currency: currency.to_string(),
        amount,
        transaction: transaction_row(txn_id, account_id, wallet_id, "dividend_payment", &amount, currency, d),
        event,
        result: TransactionResult::new(txn_id, event_id, amount, currency).with_to_wallet(WalletType::Funding),
    }
}


// ---------------------------------------------------------------------------
// Anti-money-laundering thresholds
// ---------------------------------------------------------------------------

/// The thresholds of the anti-money-laundering checks.
#[derive(Debug)]
pub struct AmlThresholds {
    /// From this amount on, a transaction is large
    pub large_amount: Amount,
    /// Amounts from this ...
    pub near_threshold_min: Amount,
    /// ... to this are just below the reporting threshold (structuring)
    pub near_threshold_max: Amount,
    /// The high-risk countries (ISO codes)
    pub high_risk_countries: Vec<String>,
}

/// The flags the checks raise for an event, in order: LargeAmount, then
/// NearThreshold, then HighRiskCountry.
pub open spec fn aml_flags_for(t: AmlThresholds, e: Event) -> Seq<AmlFlag> {
    let large = match e.amount { Some(a) => a@ >= t.large_amount@, None => false };
    let near = match e.amount {
        Some(a) => a@ >= t.near_threshold_min@ && a@ <= t.near_threshold_max@,
        None => false,
    };
    let risky = match e.metadata.location {
        Some(loc) => exists|i: int| 0 <= i < t.high_risk_countries@.len() && t.high_risk_countries@[i]@ == loc@,
        None => false,
    };
    (if large { seq![AmlFlag::LargeAmount] } else { Seq::empty() })
        + (if near { seq![AmlFlag::NearThreshold] } else { Seq::empty() })
        + (if risky { seq![AmlFlag::HighRiskCountry] } else { Seq::empty() })
}

impl AmlThresholds {
    /// The default thresholds: large from 10000, near from 9000 to 9999,
    /// and the countries KP, IR, SY and CU.
    pub fn default() -> (r: AmlThresholds)
        ensures
            r.large_amount@ == units_of(10000, 0),
            r.near_threshold_min@ == units_of(9000, 0),
            r.near_threshold_max@ == units_of(9999, 0),
            r.high_risk_countries@.len() == 4,
            r.high_risk_countries@[0]@ == "KP"@,
            r.high_risk_countries@[1]@ == "IR"@,
            r.high_risk_countries@[2]@ == "SY"@,
            r.high_risk_countries@[3]@ == "CU"@,
    {
        let mut countries: Vec<String> = Vec::new();
        countries.push(String::from_str("KP"));
        countries.push(String::from_str("IR"));
        countries.push(String::from_str("SY"));
        countries.push(String::from_str("CU"));
        AmlThresholds {
            large_amount: Amount::new(10000, 0),
            near_threshold_min: Amount::new(9000, 0),
            near_threshold_max: Amount::new(9999, 0),
            high_risk_countries: countries,
        }
    }

    /// The flags an event should carry: LargeAmount when its amount reaches
    /// the large threshold, NearThreshold when it lies between the near
    /// bounds, HighRiskCountry when its location is a high-risk country.
    pub fn check_aml_flags(&self, event: &Event) -> (r: Vec<AmlFlag>)
        ensures
            r@ == aml_flags_for(*self, *event),
    {
        let mut flags: Vec<AmlFlag> = Vec::new();
        if let Some(amount) = &event.amount {
            if self.large_amount.at_most(amount) {
                flags.push(AmlFlag::LargeAmount);
            }
            if self.near_threshold_min.at_most(amount) && amount.at_most(&self.near_threshold_max) {
                flags.push(AmlFlag::NearThreshold);
            }
        }
        if let Some(location) = &event.metadata.location {
            if crate::bank::rules::contains_text(&self.high_risk_countries, location.as_str()) {
                flags.push(AmlFlag::HighRiskCountry);
            }
        }
        proof {
            assert(flags@ =~= aml_flags_for(*self, *event));
        }
        flags
    }
}

/// Each threshold check decides its own flag, whatever the others find:
/// LargeAmount is raised exactly when the event has an amount of at least
/// the large threshold; NearThreshold exactly when its amount lies between
/// the near bounds; HighRiskCountry exactly when its location is one of the
/// high-risk countries, whatever its amount. No other flag is raised, and
/// none twice.
pub proof fn lemma_aml_flags(t: AmlThresholds, e: Event)
    ensures
        aml_flags_for(t, e).contains(AmlFlag::LargeAmount)
            <==> (e.amount matches Some(a) && a@ >= t.large_amount@),
        aml_flags_for(t, e).contains(AmlFlag::NearThreshold)
            <==> (e.amount matches Some(a) && t.near_threshold_min@ <= a@ && a@ <= t.near_threshold_max@),
        aml_flags_for(t, e).contains(AmlFlag::HighRiskCountry)
            <==> (e.metadata.location matches Some(loc)
                && exists|i: int| 0 <= i < t.high_risk_countries@.len() && #[trigger] t.high_risk_countries@[i]@ == loc@),
        forall|i: int| 0 <= i < aml_flags_for(t, e).len() ==> {
            let f = #[trigger] aml_flags_for(t, e)[i];
            f == AmlFlag::LargeAmount || f == AmlFlag::NearThreshold || f == AmlFlag::HighRiskCountry
        },
        forall|i: int, j: int| 0 <= i < j < aml_flags_for(t, e).len() ==> aml_flags_for(t, e)[i] != aml_flags_for(t, e)[j],
{
    let a = match e.amount { Some(x) => x@ >= t.large_amount@, None => false };
    let b = match e.amount {
        Some(x) => x@ >= t.near_threshold_min@ && x@ <= t.near_threshold_max@,
        None => false,
    };
    let c = match e.metadata.location {
        Some(loc) => exists|i: int| 0 <= i < t.high_risk_countries@.len() && t.high_risk_countries@[i]@ == loc@,
        None => false,
    };
    let sa: Seq<AmlFlag> = if a { seq![AmlFlag::LargeAmount] } else { Seq::empty() };
    let sb: Seq<AmlFlag> = if b { seq![AmlFlag::NearThreshold] } else { Seq::empty() };
    let sc: Seq<AmlFlag> = if c { seq![AmlFlag::HighRiskCountry] } else { Seq::empty() };
    let r = aml_flags_for(t, e);
    assert(r == sa + sb + sc);
    assert forall|f: AmlFlag| r.contains(f) <==> (sa.contains(f) || sb.contains(f) || sc.contains(f)) by {
        if r.contains(f) {
            let k = choose|k: int| 0 <= k < r.len() && r[k] == f;
            if k < sa.len() {
                assert(sa[k] == f);
            } else if k < sa.len() + sb.len() {
                assert(sb[k - sa.len()] == f);
            } else {
                assert(sc[k - sa.len() - sb.len()] == f);
            }
        }
        if sa.contains(f) {
            assert(r[0] == f);
        }
        if sb.contains(f) {
            assert(r[sa.len() as int] == f);
        }
        if sc.contains(f) {
            assert(r[(sa.len() + sb.len()) as int] == f);
        }
    }
    if a {
        assert(sa.contains(AmlFlag::LargeAmount)) by { assert(sa[0] == AmlFlag::LargeAmount); }
    }
    if b {
        assert(sb.contains(AmlFlag::NearThreshold)) by { assert(sb[0] == AmlFlag::NearThreshold); }
    }
    if c {
        assert(sc.contains(AmlFlag::HighRiskCountry)) by { assert(sc[0] == AmlFlag::HighRiskCountry); }
    }
    assert forall|i: int| 0 <= i < r.len() implies {
        let f = #[trigger] r[i];
        f == AmlFlag::LargeAmount || f == AmlFlag::NearThreshold || f == AmlFlag::HighRiskCountry
    } by {
        if i < sa.len() {
            assert(r[i] == sa[i]);
        } else if i < sa.len() + sb.len() {
            assert(r[i] == sb[i - sa.len()]);
        } else {
            assert(r[i] == sc[i - sa.len() - sb.len()]);
        }
    }
    assert forall|i: int, j: int| 0 <= i < j < r.len() implies r[i] != r[j] by {
        if i < sa.len() {
            assert(r[i] == AmlFlag::LargeAmount);
        } else if i < sa.len() + sb.len() {
            assert(r[i] == AmlFlag::NearThreshold);
        } else {
            assert(r[i] == AmlFlag::HighRiskCountry);
        }
        if j < sa.len() {
            assert(r[j] == AmlFlag::LargeAmount);
        } else if j < sa.len() + sb.len() {
            assert(r[j] == AmlFlag::NearThreshold);
        } else {
            assert(r[j] == AmlFlag::HighRiskCountry);
        }
    }
}

/// A balance row is there and its available amount, read as a decimal,
/// is at least `amount`.
pub open spec fn row_covers(balance: Option<BalanceRow>, amount: Amount) -> bool {
    &&& balance matches Some(b)
    &&& decimal_parse(b.available@) matches Ok(p)
    &&& units_of(p.0 as int, p.1 as nat) >= amount@
}

/// For a positive amount, the balance check reads the row as `row_covers` says.
proof fn lemma_covers(balance: Option<BalanceRow>, amount: Amount)
    requires
        amount@ > 0,
    ensures
        balance_verdict(amount, balance) is None <==> row_covers(balance, amount),
        balance_verdict(amount, balance) matches Some(v) ==> short_of(v, amount),
{
    match balance {
        Some(b) => match decimal_parse(b.available@) {
            Ok(p) => {},
            Err(_) => { assert(units_of(0, 0) == 0); },
        },
        None => { assert(units_of(0, 0) == 0); },
    }
}

/// An account row is there and its status is "active".
pub open spec fn active_row(account: Option<AccountRow>) -> bool {
    account matches Some(a) && a.status@ == "active"@
}

/// A person row is there and the person has the role.
pub open spec fn has_role(person: Option<PersonRow>, role: Seq<char>) -> bool {
    person matches Some(p) && p.person_type@ == role
}

/// Whether a verdict refuses for want of balance, asking for `amount`.
pub open spec fn short_of(v: Verdict, amount: Amount) -> bool {
    v matches Verdict::Refused(f) && f.0 == 1 && f.3 == amount@
}

/// A deposit goes ahead exactly when the amount is positive, the account
/// is there and active, and its Funding wallet is there.
pub proof fn lemma_deposit_allowed(account_id: Seq<char>, amount: Amount, account: Option<AccountRow>,
    wallet: Option<WalletRow>)
    ensures
        deposit_verdict(account_id, amount, account, wallet) == Verdict::Allowed
            <==> (amount@ > 0 && active_row(account) && wallet is Some),
{
    reveal_with_fuel(first_refusal, 4);
}

/// A withdrawal goes ahead exactly when the amount is positive, the
/// account is there and active, its Funding wallet is there, and the
/// balance as read covers the amount; when only the balance falls short,
/// the refusal is for want of balance, asking for the amount.
pub proof fn lemma_withdraw_allowed(account_id: Seq<char>, amount: Amount, account: Option<AccountRow>,
    wallet: Option<WalletRow>, balance: Option<BalanceRow>)
    ensures
        withdraw_verdict(account_id, amount, account, wallet, balance) == Verdict::Allowed
            <==> (amount@ > 0 && active_row(account) && wallet is Some && row_covers(balance, amount)),
        amount@ > 0 && active_row(account) && wallet is Some && !row_covers(balance, amount)
            ==> short_of(withdraw_verdict(account_id, amount, account, wallet, balance), amount),
{
    if amount@ > 0 {
        lemma_covers(balance, amount);
    }
    reveal_with_fuel(first_refusal, 5);
}

/// A transfer goes ahead exactly when the amount is positive, the two
/// wallets differ, the account is there and active, both wallets are
/// there, and the source balance as read covers the amount; when only the
/// balance falls short, the refusal is for want of balance, asking for the
/// amount.
pub proof fn lemma_transfer_allowed(account_id: Seq<char>, from: WalletType, to: WalletType, amount: Amount,
    account: Option<AccountRow>, from_wallet: Option<WalletRow>, to_wallet: Option<WalletRow>,
    balance: Option<BalanceRow>)
    ensures
        transfer_verdict(account_id, from, to, amount, account, from_wallet, to_wallet, balance) == Verdict::Allowed
            <==> (amount@ > 0 && from != to && active_row(account) && from_wallet is Some && to_wallet is Some
                && row_covers(balance, amount)),
        amount@ > 0 && from != to && active_row(account) && from_wallet is Some && to_wallet is Some
            && !row_covers(balance, amount)
            ==> short_of(transfer_verdict(account_id, from, to, amount, account, from_wallet, to_wallet, balance), amount),
{
    if amount@ > 0 {
        lemma_covers(balance, amount);
    }
    reveal_with_fuel(first_refusal, 7);
}

/// A salary payment goes ahead exactly when the amount is positive, the
/// payer is a manager, the account is there and active, its owner is an
/// employee, and its Funding wallet is there.
pub proof fn lemma_salary_allowed(manager_id: Seq<char>, account_id: Seq<char>, amount: Amount,
    manager: Option<PersonRow>, account: Option<AccountRow>, employee: Option<PersonRow>, wallet: Option<WalletRow>)
    ensures
        salary_verdict(manager_id, account_id, amount, manager, account, employee, wallet) == Verdict::Allowed
            <==> (amount@ > 0 && has_role(manager, "manager"@) && active_row(account)
                && has_role(employee, "employee"@) && wallet is Some),
{
    reveal_with_fuel(first_refusal, 6);
}

/// An insurance purchase goes ahead exactly when the cost is positive, the
/// account is there and active, belongs to the buyer, who is an employee,
/// its Funding wallet is there, and the balance as read covers the cost;
/// when only the balance falls short, the refusal is for want of balance,
/// asking for the cost.
pub proof fn lemma_insurance_allowed(employee_id: Seq<char>, account_id: Seq<char>, cost: Amount,
    account: Option<AccountRow>, person: Option<PersonRow>, wallet: Option<WalletRow>, balance: Option<BalanceRow>)
    ensures
        insurance_verdict(employee_id, account_id, cost, account, person, wallet, balance) == Verdict::Allowed
            <==> (cost@ > 0 && active_row(account) && has_role(person, "employee"@)
                && (account matches Some(a) && a.person_id@ == employee_id)
                && wallet is Some && row_covers(balance, cost)),
        cost@ > 0 && active_row(account) && has_role(person, "employee"@)
            && (account matches Some(a) && a.person_id@ == employee_id) && wallet is Some && !row_covers(balance, cost)
            ==> short_of(insurance_verdict(employee_id, account_id, cost, account, person, wallet, balance), cost),
{
    if cost@ > 0 {
        lemma_covers(balance, cost);
    }
    reveal_with_fuel(first_refusal, 7);
}

/// A dividend payment goes ahead exactly when the amount is positive, the
/// payer is a manager, the account is there (active or not), its owner is
/// a shareholder, and its Funding wallet is there.
pub proof fn lemma_dividend_allowed(manager_id: Seq<char>, account_id: Seq<char>, amount: Amount,
    manager: Option<PersonRow>, account: Option<AccountRow>, shareholder: Option<PersonRow>,
    wallet: Option<WalletRow>)
    ensures
        dividend_verdict(manager_id, account_id, amount, manager, account, shareholder, wallet) == Verdict::Allowed
            <==> (amount@ > 0 && has_role(manager, "manager"@) && account is Some
                && has_role(shareholder, "shareholder"@) && wallet is Some),
{
    reveal_with_fuel(first_refusal, 6);
}

} // verus!
