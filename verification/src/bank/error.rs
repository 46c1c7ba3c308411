//! The domain's errors and their messages.
use vstd::prelude::*;
use vstd::string::StringExecFns;
use crate::decimal::{decimal_text, Amount};
use super::wallet::{wallet_type_text, WalletType};

verus! {

/// The errors of the banking domain, apart from infrastructure.
#[derive(Debug)]
pub enum CoreError {
    /// The balance does not cover an amount
    InsufficientBalance { needed: Amount, available: Amount },
    /// An amount that is not valid
    InvalidAmount(String),
    /// Two currencies that should match do not
    CurrencyMismatch { expected: String, actual: String },
    /// A currency code that is not known
    UnknownCurrency(String),
    /// No account with the identifier
    AccountNotFound(String),
    /// The account is frozen
    AccountFrozen(String),
    /// The account is closed
    AccountClosed(String),
    /// An account with the identifier exists already
    AccountAlreadyExists(String),
    /// No wallet of the type in the account
    WalletNotFound { account_id: String, wallet_type: WalletType },
    /// The wallet is frozen
    WalletFrozen(String),
    /// The wallet type does not allow the operation
    InvalidWalletType(String),
    /// A transfer from a wallet to itself
    SameWalletTransfer,
    /// No person with the identifier
    PersonNotFound(String),
    /// A person with the identifier exists already
    PersonAlreadyExists(String),
    /// A person type that is not valid
    InvalidPersonType(String),
    /// The actor may not do this
    PermissionDenied(String),
    /// The operation needs an approval
    RequiresApproval,
    /// The input is not valid
    ValidationError(String),
    /// An identifier of the wrong form
    InvalidIdFormat(String),
    /// Blocked by the anti-money-laundering rules
    AmlBlocked(String),
    /// Flagged for review by the anti-money-laundering rules
    AmlFlagged(String),
}

/// The message of an error.
pub open spec fn core_error_text(e: CoreError) -> Seq<char> {
    match e {
        CoreError::InsufficientBalance { needed, available } =>
            "Insufficient balance: need "@ + decimal_text(needed.parts()) + ", available "@ + decimal_text(available.parts()),
        CoreError::CurrencyMismatch { expected, actual } =>
            "Currency mismatch: expected "@ + expected@ + ", got "@ + actual@,
        CoreError::WalletNotFound { account_id, wallet_type } =>
            "Wallet not found: "@ + account_id@ + " - "@ + wallet_type_text(wallet_type),
        CoreError::SameWalletTransfer => "Cannot transfer to same wallet"@,
        CoreError::RequiresApproval => "Operation requires approval"@,
        CoreError::InvalidAmount(s) => "Invalid amount: "@ + s@,
        CoreError::UnknownCurrency(s) => "Unknown currency: "@ + s@,
        CoreError::AccountNotFound(s) => "Account not found: "@ + s@,
        CoreError::AccountFrozen(s) => "Account is frozen: "@ + s@,
        CoreError::AccountClosed(s) => "Account is closed: "@ + s@,
        CoreError::AccountAlreadyExists(s) => "Account already exists: "@ + s@,
        CoreError::WalletFrozen(s) => "Wallet is frozen: "@ + s@,
        CoreError::InvalidWalletType(s) => "Invalid wallet type for operation: "@ + s@,
        CoreError::PersonNotFound(s) => "Person not found: "@ + s@,
        CoreError::PersonAlreadyExists(s) => "Person already exists: "@ + s@,
        CoreError::InvalidPersonType(s) => "Invalid person type: "@ + s@,
        CoreError::PermissionDenied(s) => "Permission denied: "@ + s@,
        CoreError::ValidationError(s) => "Validation error: "@ + s@,
        CoreError::InvalidIdFormat(s) => "Invalid ID format: "@ + s@,
        CoreError::AmlBlocked(s) => "Transaction blocked by AML: "@ + s@,
        CoreError::AmlFlagged(s) => "Transaction flagged for review: "@ + s@,
    }
}

/// A text followed by another.
fn joined(a: &str, b: &str) -> (r: String)
    ensures
        r@ == a@ + b@,
{
    let mut s = String::from_str(a);
    s.append(b);
    s
}

impl CoreError {
    /// The error's message.
    pub fn message(&self) -> (r: String)
        ensures
            r@ == core_error_text(*self),
    {
        proof {
            reveal_strlit("Insufficient balance: need ");
            reveal_strlit(", available ");
            reveal_strlit("Currency mismatch: expected ");
            reveal_strlit(", got ");
            reveal_strlit("Wallet not found: ");
            reveal_strlit(" - ");
            reveal_strlit("Cannot transfer to same wallet");
            reveal_strlit("Operation requires approval");
            reveal_strlit("Invalid amount: ");
            reveal_strlit("Unknown currency: ");
            reveal_strlit("Account not found: ");
            reveal_strlit("Account is frozen: ");
            reveal_strlit("Account is closed: ");
            reveal_strlit("Account already exists: ");
            reveal_strlit("Wallet is frozen: ");
            reveal_strlit("Invalid wallet type for operation: ");
            reveal_strlit("Person not found: ");
            reveal_strlit("Person already exists: ");
            reveal_strlit("Invalid person type: ");
            reveal_strlit("Permission denied: ");
            reveal_strlit("Validation error: ");
            reveal_strlit("Invalid ID format: ");
            reveal_strlit("Transaction blocked by AML: ");
            reveal_strlit("Transaction flagged for review: ");
        }
        match self {
            CoreError::InsufficientBalance { needed, available } => {
                let mut s = joined("Insufficient balance: need ", needed.to_text().as_str());
                s.append(", available ");
                s.append(available.to_text().as_str());
                s
            },
            CoreError::CurrencyMismatch { expected, actual } => {
                let mut s = joined("Currency mismatch: expected ", expected.as_str());
                s.append(", got ");
                s.append(actual.as_str());
                s
            },
            CoreError::WalletNotFound { account_id, wallet_type } => {
                let mut s = joined("Wallet not found: ", account_id.as_str());
                s.append(" - ");
                s.append(wallet_type.as_str());
                s
            },
            CoreError::SameWalletTransfer => String::from_str("Cannot transfer to same wallet"),
            CoreError::RequiresApproval => String::from_str("Operation requires approval"),
            CoreError::InvalidAmount(s) => joined("Invalid amount: ", s.as_str()),
            CoreError::UnknownCurrency(s) => joined("Unknown currency: ", s.as_str()),
            CoreError::AccountNotFound(s) => joined("Account not found: ", s.as_str()),
            CoreError::AccountFrozen(s) => joined("Account is frozen: ", s.as_str()),
            CoreError::AccountClosed(s) => joined("Account is closed: ", s.as_str()),
            CoreError::AccountAlreadyExists(s) => joined("Account already exists: ", s.as_str()),
            CoreError::WalletFrozen(s) => joined("Wallet is frozen: ", s.as_str()),
            CoreError::InvalidWalletType(s) => joined("Invalid wallet type for operation: ", s.as_str()),
            CoreError::PersonNotFound(s) => joined("Person not found: ", s.as_str()),
            CoreError::PersonAlreadyExists(s) => joined("Person already exists: ", s.as_str()),
            CoreError::InvalidPersonType(s) => joined("Invalid person type: ", s.as_str()),
            CoreError::PermissionDenied(s) => joined("Permission denied: ", s.as_str()),
            CoreError::ValidationError(s) => joined("Validation error: ", s.as_str()),
            CoreError::InvalidIdFormat(s) => joined("Invalid ID format: ", s.as_str()),
            CoreError::AmlBlocked(s) => joined("Transaction blocked by AML: ", s.as_str()),
            CoreError::AmlFlagged(s) => joined("Transaction flagged for review: ", s.as_str()),
        }
    }

    /// Whether the error is a shortage of balance.
    pub fn is_insufficient_balance(&self) -> (r: bool)
        ensures
            r == (*self is InsufficientBalance),
    {
        match self {
            CoreError::InsufficientBalance { .. } => true,
            _ => false,
        }
    }

    /// Whether the error is about permissions.
    pub fn is_permission_error(&self) -> (r: bool)
        ensures
            r == (*self is PermissionDenied || *self is RequiresApproval),
    {
        match self {
            CoreError::PermissionDenied(_) | CoreError::RequiresApproval => true,
            _ => false,
        }
    }

    /// Whether the error comes from the anti-money-laundering rules.
    pub fn is_aml_error(&self) -> (r: bool)
        ensures
            r == (*self is AmlBlocked || *self is AmlFlagged),
    {
        match self {
            CoreError::AmlBlocked(_) | CoreError::AmlFlagged(_) => true,
            _ => false,
        }
    }
}

} // verus!
