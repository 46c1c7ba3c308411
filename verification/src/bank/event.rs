//! Events: the append-only record of what happened, kept for audit and
//! anti-money-laundering checks.
use vstd::prelude::*;
use vstd::string::StringExecFns;
use crate::clock::{lemma_plain_patterns, format_time, now_millis, time_text};
use crate::decimal::Amount;
use crate::text::{prefixed_number, zero_padded};
use super::person::PersonType;
use super::wallet::WalletType;

verus! {

/// The kinds of event.
#[derive(Debug, Clone, Copy, PartialEq, Eq, Structural)]
pub enum EventType {
    /// An account was created
    AccountCreated,
    /// An account was frozen
    AccountFrozen,
    /// An account was activated again
    AccountActivated,
    /// An account was closed
    AccountClosed,
    /// Money came in (outside to Funding)
    Deposit,
    /// Money went out (Funding to outside)
    Withdrawal,
    /// Money moved between two wallets of an account
    InternalTransfer,
    /// A Spot trade
    Trade,
    /// A fee was charged
    Fee,
    /// A salary was paid to an employee
    SalaryPayment,
    /// Insurance was bought
    InsurancePurchase,
    /// A dividend was paid
    DividendPayment,
    /// A bonus was paid
    BonusPayment,
    /// An auditor read the data
    AuditAccess,
    /// An audit report was produced
    AuditReportGenerated,
}

/// The code of an event type.
pub open spec fn event_type_text(t: EventType) -> Seq<char> {
    match t {
        EventType::AccountCreated => "account_created"@,
        EventType::AccountFrozen => "account_frozen"@,
        EventType::AccountActivated => "account_activated"@,
        EventType::AccountClosed => "account_closed"@,
        EventType::Deposit => "deposit"@,
        EventType::Withdrawal => "withdrawal"@,
        EventType::InternalTransfer => "internal_transfer"@,
        EventType::Trade => "trade"@,
        EventType::Fee => "fee"@,
        EventType::SalaryPayment => "salary_payment"@,
        EventType::InsurancePurchase => "insurance_purchase"@,
        EventType::DividendPayment => "dividend_payment"@,
        EventType::BonusPayment => "bonus_payment"@,
        EventType::AuditAccess => "audit_access"@,
        EventType::AuditReportGenerated => "audit_report_generated"@,
    }
}

impl EventType {
    /// The code string of the event type.
    pub fn as_str(&self) -> (r: &'static str)
        ensures
            r@ == event_type_text(*self),
    {
        proof {
            reveal_strlit("account_created");
            reveal_strlit("account_frozen");
            reveal_strlit("account_activated");
            reveal_strlit("account_closed");
            reveal_strlit("deposit");
            reveal_strlit("withdrawal");
            reveal_strlit("internal_transfer");
            reveal_strlit("trade");
            reveal_strlit("fee");
            reveal_strlit("salary_payment");
            reveal_strlit("insurance_purchase");
            reveal_strlit("dividend_payment");
            reveal_strlit("bonus_payment");
            reveal_strlit("audit_access");
            reveal_strlit("audit_report_generated");
        }
        match self {
            EventType::AccountCreated => "account_created",
            EventType::AccountFrozen => "account_frozen",
            EventType::AccountActivated => "account_activated",
            EventType::AccountClosed => "account_closed",
            EventType::Deposit => "deposit",
            EventType::Withdrawal => "withdrawal",
            EventType::InternalTransfer => "internal_transfer",
            EventType::Trade => "trade",
            EventType::Fee => "fee",
            EventType::SalaryPayment => "salary_payment",
            EventType::InsurancePurchase => "insurance_purchase",
            EventType::DividendPayment => "dividend_payment",
            EventType::BonusPayment => "bonus_payment",
            EventType::AuditAccess => "audit_access",
            EventType::AuditReportGenerated => "audit_report_generated",
        }
    }
}

/// The anti-money-laundering flags an event may carry.
#[derive(Debug, Clone, Copy, PartialEq, Eq, Structural)]
pub enum AmlFlag {
    /// A large amount, above the reporting threshold
    LargeAmount,
    /// Just below the reporting threshold (possible structuring)
    NearThreshold,
    /// An unusual pattern, such as many small transactions in a row
    UnusualPattern,
    /// A cross-border transaction
    CrossBorder,
    /// To or from a high-risk country
    HighRiskCountry,
    /// A new account with a large transaction
    NewAccountLargeTx,
    /// A withdrawal soon after a deposit
    RapidWithdrawal,
}

/// The code of a flag.
pub open spec fn aml_flag_text(f: AmlFlag) -> Seq<char> {
    match f {
        AmlFlag::LargeAmount => "large_amount"@,
        AmlFlag::NearThreshold => "near_threshold"@,
        AmlFlag::UnusualPattern => "unusual_pattern"@,
        AmlFlag::CrossBorder => "cross_border"@,
        AmlFlag::HighRiskCountry => "high_risk_country"@,
        AmlFlag::NewAccountLargeTx => "new_account_large_tx"@,
        AmlFlag::RapidWithdrawal => "rapid_withdrawal"@,
    }
}

impl AmlFlag {
    /// The code string of the flag.
    pub fn as_str(&self) -> (r: &'static str)
        ensures
            r@ == aml_flag_text(*self),
    {
        proof {
            reveal_strlit("large_amount");
            reveal_strlit("near_threshold");
            reveal_strlit("unusual_pattern");
            reveal_strlit("cross_border");
            reveal_strlit("high_risk_country");
            reveal_strlit("new_account_large_tx");
            reveal_strlit("rapid_withdrawal");
        }
        match self {
            AmlFlag::LargeAmount => "large_amount",
            AmlFlag::NearThreshold => "near_threshold",
            AmlFlag::UnusualPattern => "unusual_pattern",
            AmlFlag::CrossBorder => "cross_border",
            AmlFlag::HighRiskCountry => "high_risk_country",
            AmlFlag::NewAccountLargeTx => "new_account_large_tx",
            AmlFlag::RapidWithdrawal => "rapid_withdrawal",
        }
    }
}

/// Extra facts about an event, for tracing and for the AML checks.
#[derive(Debug)]
pub struct EventMetadata {
    /// The actor's IP address
    pub ip_address: Option<String>,
    /// The ISO country code (VN, US, ...)
    pub location: Option<String>,
    /// The device identifier
    pub device_id: Option<String>,
    /// The user agent
    pub user_agent: Option<String>,
    /// The session identifier
    pub session_id: Option<String>,
    /// Custom data (JSON text)
    pub extra: Option<String>,
}

/// The text of an optional string.
pub open spec fn opt_view(o: Option<String>) -> Option<Seq<char>> {
    match o {
        Some(s) => Some(s@),
        None => None,
    }
}

impl EventMetadata {
    /// Metadata with nothing set.
    pub open spec fn is_empty(&self) -> bool {
        &&& self.ip_address is None
        &&& self.location is None
        &&& self.device_id is None
        &&& self.user_agent is None
        &&& self.session_id is None
        &&& self.extra is None
    }

    /// Empty metadata.
    pub fn new() -> (r: EventMetadata)
        ensures
            r.is_empty(),
    {
        EventMetadata {
            ip_address: None,
            location: None,
            device_id: None,
            user_agent: None,
            session_id: None,
            extra: None,
        }
    }

    /// The metadata with an IP address.
    pub fn with_ip(self, ip: &str) -> (r: EventMetadata)
        ensures
            opt_view(r.ip_address) == Some(ip@),
            r.location == self.location,
            r.device_id == self.device_id,
            r.user_agent == self.user_agent,
            r.session_id == self.session_id,
            r.extra == self.extra,
    {
        EventMetadata { ip_address: Some(ip.to_string()), ..self }
    }

    /// The metadata with a country code.
    pub fn with_location(self, location: &str) -> (r: EventMetadata)
        ensures
            opt_view(r.location) == Some(location@),
            r.ip_address == self.ip_address,
            r.device_id == self.device_id,
            r.user_agent == self.user_agent,
            r.session_id == self.session_id,
            r.extra == self.extra,
    {
        EventMetadata { location: Some(location.to_string()), ..self }
    }

    /// The metadata with a device identifier.
    pub fn with_device(self, device_id: &str) -> (r: EventMetadata)
        ensures
            opt_view(r.device_id) == Some(device_id@),
            r.ip_address == self.ip_address,
            r.location == self.location,
            r.user_agent == self.user_agent,
            r.session_id == self.session_id,
            r.extra == self.extra,
    {
        EventMetadata { device_id: Some(device_id.to_string()), ..self }
    }

    /// A copy of the metadata.
    pub fn duplicate(&self) -> (r: EventMetadata)
        ensures
            r == *self,
    {
        EventMetadata {
            ip_address: clone_opt(&self.ip_address),
            location: clone_opt(&self.location),
            device_id: clone_opt(&self.device_id),
            user_agent: clone_opt(&self.user_agent),
            session_id: clone_opt(&self.session_id),
            extra: clone_opt(&self.extra),
        }
    }
}

/// A copy of an optional string.
pub fn clone_opt(o: &Option<String>) -> (r: Option<String>)
    ensures
        r == *o,
{
    match o {
        Some(s) => Some(s.clone()),
        None => None,
    }
}

/// An event: something that happened, immutable once recorded.
#[derive(Debug)]
pub struct Event {
    /// The unique identifier (EVT_000001, ...)
    pub event_id: String,
    /// When it happened, in milliseconds since the Unix epoch
    pub timestamp: i64,
    /// The kind of event
    pub event_type: EventType,
    /// Who did it (CUST_001, EMP_001, ...)
    pub actor_id: String,
    /// The actor's role
    pub actor_role: PersonType,
    /// The account concerned
    pub account_id: String,
    /// The source wallet (none for a deposit from outside)
    pub from_wallet: Option<WalletType>,
    /// The destination wallet (none for a withdrawal to outside)
    pub to_wallet: Option<WalletType>,
    /// The amount
    pub amount: Option<Amount>,
    /// The currency code
    pub currency: Option<String>,
    /// A description
    pub description: Option<String>,
    /// The AML flags
    pub aml_flags: Vec<AmlFlag>,
    /// Extra facts
    pub metadata: EventMetadata,
}

/// The text of an event identifier: `EVT_` and the counter on six digits.
pub open spec fn event_id_text(counter: nat) -> Seq<char> {
    "EVT_"@ + zero_padded(counter, 6)
}

impl Event {
    /// The event's own fields as given, and nothing else set: no wallets, no
    /// amount, no currency, no description, no flags, empty metadata.
    pub open spec fn is_bare(&self, event_id: Seq<char>, event_type: EventType, actor_id: Seq<char>,
        actor_role: PersonType, account_id: Seq<char>) -> bool
    {
        &&& self.event_id@ == event_id
        &&& self.event_type == event_type
        &&& self.actor_id@ == actor_id
        &&& self.actor_role == actor_role
        &&& self.account_id@ == account_id
        &&& self.from_wallet is None
        &&& self.to_wallet is None
        &&& self.amount is None
        &&& self.currency is None
        &&& self.description is None
        &&& self.aml_flags@.len() == 0
        &&& self.metadata.is_empty()
    }

    /// Two events agree on every field but the given ones; used by the builders.
    pub open spec fn same_but_wallets_amount(&self, other: &Event) -> bool {
        &&& self.event_id == other.event_id
        &&& self.timestamp == other.timestamp
        &&& self.event_type == other.event_type
        &&& self.actor_id == other.actor_id
        &&& self.actor_role == other.actor_role
        &&& self.account_id == other.account_id
        &&& self.description == other.description
        &&& self.aml_flags == other.aml_flags
        &&& self.metadata == other.metadata
    }

    /// A new event happening now, with nothing but its identity set.
    pub fn new(event_id: String, event_type: EventType, actor_id: String, actor_role: PersonType,
        account_id: String) -> (r: Event)
        ensures
            r.is_bare(event_id@, event_type, actor_id@, actor_role, account_id@),
    {
        Event {
            event_id,
            timestamp: now_millis(),
            event_type,
            actor_id,
            actor_role,
            account_id,
            from_wallet: None,
            to_wallet: None,
            amount: None,
            currency: None,
            description: None,
            aml_flags: Vec::new(),
            metadata: EventMetadata::new(),
        }
    }

    /// The event with a source wallet.
    pub fn with_from_wallet(self, wallet: WalletType) -> (r: Event)
        ensures
            r.from_wallet == Some(wallet),
            r.to_wallet == self.to_wallet,
            r.amount == self.amount,
            r.currency == self.currency,
            r.same_but_wallets_amount(&self),
    {
        Event { from_wallet: Some(wallet), ..self }
    }

    /// The event with a destination wallet.
    pub fn with_to_wallet(self, wallet: WalletType) -> (r: Event)
        ensures
            r.to_wallet == Some(wallet),
            r.from_wallet == self.from_wallet,
            r.amount == self.amount,
            r.currency == self.currency,
            r.same_but_wallets_amount(&self),
    {
        Event { to_wallet: Some(wallet), ..self }
    }

    /// The event with an amount and its currency.
    pub fn with_amount(self, amount: Amount, currency: &str) -> (r: Event)
        ensures
            r.amount == Some(amount),
            opt_view(r.currency) == Some(currency@),
            r.from_wallet == self.from_wallet,
            r.to_wallet == self.to_wallet,
            r.same_but_wallets_amount(&self),
    {
        Event { amount: Some(amount), currency: Some(currency.to_string()), ..self }
    }

    /// The event with a description.
    pub fn with_description(self, description: &str) -> (r: Event)
        ensures
            opt_view(r.description) == Some(description@),
            r.event_id == self.event_id,
            r.timestamp == self.timestamp,
            r.event_type == self.event_type,
            r.actor_id == self.actor_id,
            r.actor_role == self.actor_role,
            r.account_id == self.account_id,
            r.from_wallet == self.from_wallet,
            r.to_wallet == self.to_wallet,
            r.amount == self.amount,
            r.currency == self.currency,
            r.aml_flags == self.aml_flags,
            r.metadata == self.metadata,
    {
        Event { description: Some(description.to_string()), ..self }
    }

    /// The event with one more flag, after those it has.
    pub fn with_aml_flag(self, flag: AmlFlag) -> (r: Event)
        ensures
            r.aml_flags@ == self.aml_flags@.push(flag),
            r.event_id == self.event_id,
            r.timestamp == self.timestamp,
            r.event_type == self.event_type,
            r.actor_id == self.actor_id,
            r.actor_role == self.actor_role,
            r.account_id == self.account_id,
            r.from_wallet == self.from_wallet,
            r.to_wallet == self.to_wallet,
            r.amount == self.amount,
            r.currency == self.currency,
            r.description == self.description,
            r.metadata == self.metadata,
    {
        let mut e = self;
        e.aml_flags.push(flag);
        e
    }

    /// The event with its flags replaced.
    pub fn with_aml_flags(self, flags: Vec<AmlFlag>) -> (r: Event)
        ensures
            r.aml_flags@ == flags@,
            r.event_id == self.event_id,
            r.timestamp == self.timestamp,
            r.event_type == self.event_type,
            r.actor_id == self.actor_id,
            r.actor_role == self.actor_role,
            r.account_id == self.account_id,
            r.from_wallet == self.from_wallet,
            r.to_wallet == self.to_wallet,
            r.amount == self.amount,
            r.currency == self.currency,
            r.description == self.description,
            r.metadata == self.metadata,
    {
        Event { aml_flags: flags, ..self }
    }

    /// The event with its metadata replaced.
    pub fn with_metadata(self, metadata: EventMetadata) -> (r: Event)
        ensures
            r.metadata == metadata,
            r.event_id == self.event_id,
            r.timestamp == self.timestamp,
            r.event_type == self.event_type,
            r.actor_id == self.actor_id,
            r.actor_role == self.actor_role,
            r.account_id == self.account_id,
            r.from_wallet == self.from_wallet,
            r.to_wallet == self.to_wallet,
            r.amount == self.amount,
            r.currency == self.currency,
            r.description == self.description,
            r.aml_flags == self.aml_flags,
    {
        Event { metadata, ..self }
    }

    /// A customer's deposit into the Funding wallet.
    pub fn deposit(event_id: &str, actor_id: &str, account_id: &str, amount: Amount, currency: &str) -> (r: Event)
        ensures
            r.event_id@ == event_id@,
            r.event_type == EventType::Deposit,
            r.actor_id@ == actor_id@,
            r.actor_role == PersonType::Customer,
            r.account_id@ == account_id@,
            r.from_wallet is None,
            r.to_wallet == Some(WalletType::Funding),
            r.amount == Some(amount),
            opt_view(r.currency) == Some(currency@),
            r.description is None,
            r.aml_flags@.len() == 0,
            r.metadata.is_empty(),
    {
        Self::new(event_id.to_string(), EventType::Deposit, actor_id.to_string(), PersonType::Customer,
            account_id.to_string())
            .with_to_wallet(WalletType::Funding)
            .with_amount(amount, currency)
    }

    /// A customer's withdrawal from the Funding wallet.
    pub fn withdrawal(event_id: &str, actor_id: &str, account_id: &str, amount: Amount, currency: &str) -> (r: Event)
        ensures
            r.event_id@ == event_id@,
            r.event_type == EventType::Withdrawal,
            r.actor_id@ == actor_id@,
            r.actor_role == PersonType::Customer,
            r.account_id@ == account_id@,
            r.from_wallet == Some(WalletType::Funding),
            r.to_wallet is None,
            r.amount == Some(amount),
            opt_view(r.currency) == Some(currency@),
            r.description is None,
            r.aml_flags@.len() == 0,
            r.metadata.is_empty(),
    {
        Self::new(event_id.to_string(), EventType::Withdrawal, actor_id.to_string(), PersonType::Customer,
            account_id.to_string())
            .with_from_wallet(WalletType::Funding)
            .with_amount(amount, currency)
    }

    /// A customer's transfer between two wallets of an account.
    pub fn internal_transfer(event_id: &str, actor_id: &str, account_id: &str, from: WalletType,
        to: WalletType, amount: Amount, currency: &str) -> (r: Event)
        ensures
            r.event_id@ == event_id@,
            r.event_type == EventType::InternalTransfer,
            r.actor_id@ == actor_id@,
            r.actor_role == PersonType::Customer,
            r.account_id@ == account_id@,
            r.from_wallet == Some(from),
            r.to_wallet == Some(to),
            r.amount == Some(amount),
            opt_view(r.currency) == Some(currency@),
            r.description is None,
            r.aml_flags@.len() == 0,
            r.metadata.is_empty(),
    {
        Self::new(event_id.to_string(), EventType::InternalTransfer, actor_id.to_string(),
            PersonType::Customer, account_id.to_string())
            .with_from_wallet(from)
            .with_to_wallet(to)
            .with_amount(amount, currency)
    }

    /// The identifier of the event numbered `counter`: `EVT_` and at least
    /// six digits.
    pub fn generate_id(counter: u64) -> (r: String)
        ensures
            r@ == event_id_text(counter as nat),
    {
        proof { reveal_strlit("EVT_"); }
        prefixed_number("EVT_", counter, 6)
    }

    /// Whether the event carries a flag.
    pub fn has_aml_flags(&self) -> (r: bool)
        ensures
            r == (self.aml_flags@.len() > 0),
    {
        self.aml_flags.len() > 0
    }

    /// Two events hold the same values.
    pub open spec fn same_as(&self, other: &Event) -> bool {
        &&& self.event_id == other.event_id
        &&& self.timestamp == other.timestamp
        &&& self.event_type == other.event_type
        &&& self.actor_id == other.actor_id
        &&& self.actor_role == other.actor_role
        &&& self.account_id == other.account_id
        &&& self.from_wallet == other.from_wallet
        &&& self.to_wallet == other.to_wallet
        &&& self.amount == other.amount
        &&& self.currency == other.currency
        &&& self.description == other.description
        &&& self.aml_flags@ == other.aml_flags@
        &&& self.metadata == other.metadata
    }

    /// A copy of the event.
    pub fn duplicate(&self) -> (r: Event)
        ensures
            r.same_as(self),
    {
        let mut flags: Vec<AmlFlag> = Vec::new();
        let mut i: usize = 0;
        while i < self.aml_flags.len()
            invariant
                i <= self.aml_flags@.len(),
                flags@ == self.aml_flags@.subrange(0, i as int),
            decreases self.aml_flags@.len() - i,
        {
            flags.push(self.aml_flags[i]);
            i = i + 1;
        }
        assert(flags@ == self.aml_flags@);
        let r = Event {
            event_id: self.event_id.clone(),
            timestamp: self.timestamp,
            event_type: self.event_type,
            actor_id: self.actor_id.clone(),
            actor_role: self.actor_role,
            account_id: self.account_id.clone(),
            from_wallet: self.from_wallet,
            to_wallet: self.to_wallet,
            amount: self.amount,
            currency: clone_opt(&self.currency),
            description: clone_opt(&self.description),
            aml_flags: flags,
            metadata: self.metadata.duplicate(),
        };
        r
    }

    /// The one-line form of the event:
    /// `[<time as %Y-%m-%d %H:%M:%S>] <type> by <actor> on <account>`.
    pub fn display_text(&self) -> (r: String)
        ensures
            r@ == "["@ + time_text(self.timestamp, "%Y-%m-%d %H:%M:%S"@) + "] "@
                + event_type_text(self.event_type) + " by "@ + self.actor_id@ + " on "@ + self.account_id@,
    {
        proof {
            reveal_strlit("[");
            reveal_strlit("] ");
            reveal_strlit(" by ");
            reveal_strlit(" on ");
        }
        let mut s = String::from_str("[");
        proof { lemma_plain_patterns(); }
        let t = format_time(self.timestamp, "%Y-%m-%d %H:%M:%S");
        s.append(t.as_str());
        s.append("] ");
        s.append(self.event_type.as_str());
        s.append(" by ");
        s.append(self.actor_id.as_str());
        s.append(" on ");
        s.append(self.account_id.as_str());
        s
    }
}

} // verus!
