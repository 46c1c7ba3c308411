//! The storage layer's errors, and what a credit or a debit makes of a
//! stored balance.
use vstd::prelude::*;
use vstd::string::StringExecFns;
use crate::decimal::{
    decimal_checked_difference, decimal_checked_sum, decimal_difference, decimal_parse, decimal_sum, decimal_text,
    pair_add_fits, pair_sub_fits, Amount,
};
use crate::text::concat_str;
use super::rows::BalanceRow;
use super::service::{available_parts, parts_value};

verus! {

/// What can go wrong when storing or reading. Errors of the database, of
/// the file system and of JSON are carried as their messages.
#[derive(Debug, Clone, PartialEq, Eq)]
pub enum PersistenceError {
    Database(String),
    Migration(String),
    NotFound { entity: String, id: String },
    AlreadyExists { entity: String, id: String },
    ForeignKeyViolation(String),
    UniqueViolation(String),
    EventStoreIo(String),
    EventSerialization(String),
    EventFileNotFound(String),
    InvalidDecimal(String),
    InvalidEnumValue { field: String, value: String },
    Configuration(String),
    Other(String),
}

/// The message of an error.
pub open spec fn persistence_error_text(e: PersistenceError) -> Seq<char> {
    match e {
        PersistenceError::Database(m) => "Database error: "@ + m@,
        PersistenceError::Migration(m) => "Migration error: "@ + m@,
        PersistenceError::NotFound { entity, id } => "Record not found: "@ + entity@ + " with id "@ + id@,
        PersistenceError::AlreadyExists { entity, id } => "Record already exists: "@ + entity@ + " with id "@ + id@,
        PersistenceError::ForeignKeyViolation(m) => "Foreign key violation: "@ + m@,
        PersistenceError::UniqueViolation(m) => "Unique constraint violation: "@ + m@,
        PersistenceError::EventStoreIo(m) => "Event store IO error: "@ + m@,
        PersistenceError::EventSerialization(m) => "Event serialization error: "@ + m@,
        PersistenceError::EventFileNotFound(m) => "Event file not found: "@ + m@,
        PersistenceError::InvalidDecimal(m) => "Invalid decimal value: "@ + m@,
        PersistenceError::InvalidEnumValue { field, value } => "Invalid enum value: "@ + field@ + " = "@ + value@,
        PersistenceError::Configuration(m) => "Configuration error: "@ + m@,
        PersistenceError::Other(m) => m@,
    }
}

impl PersistenceError {
    /// A record that is not there.
    pub fn not_found(entity: &str, id: &str) -> (r: PersistenceError)
        ensures
            r matches PersistenceError::NotFound { entity: e, id: i } && e@ == entity@ && i@ == id@,
    {
        PersistenceError::NotFound { entity: String::from_str(entity), id: String::from_str(id) }
    }

    /// A record that is there already.
    pub fn already_exists(entity: &str, id: &str) -> (r: PersistenceError)
        ensures
            r matches PersistenceError::AlreadyExists { entity: e, id: i } && e@ == entity@ && i@ == id@,
    {
        PersistenceError::AlreadyExists { entity: String::from_str(entity), id: String::from_str(id) }
    }

    /// Whether a record was not found.
    pub fn is_not_found(&self) -> (r: bool)
        ensures
            r == (*self is NotFound),
    {
        match self {
            PersistenceError::NotFound { .. } => true,
            _ => false,
        }
    }

    /// Whether the database failed.
    pub fn is_database_error(&self) -> (r: bool)
        ensures
            r == (*self is Database),
    {
        match self {
            PersistenceError::Database(_) => true,
            _ => false,
        }
    }

    /// The message of the error.
    pub fn message(&self) -> (r: String)
        ensures
            r@ == persistence_error_text(*self),
    {
        match self {
            PersistenceError::Database(m) => concat_str("Database error: ", m.as_str()),
            PersistenceError::Migration(m) => concat_str("Migration error: ", m.as_str()),
            PersistenceError::NotFound { entity, id } => {
                let mut s = concat_str("Record not found: ", entity.as_str());
                s.append(" with id ");
                s.append(id.as_str());
                s
            },
            PersistenceError::AlreadyExists { entity, id } => {
                let mut s = concat_str("Record already exists: ", entity.as_str());
                s.append(" with id ");
                s.append(id.as_str());
                s
            },
            PersistenceError::ForeignKeyViolation(m) => concat_str("Foreign key violation: ", m.as_str()),
            PersistenceError::UniqueViolation(m) => concat_str("Unique constraint violation: ", m.as_str()),
            PersistenceError::EventStoreIo(m) => concat_str("Event store IO error: ", m.as_str()),
            PersistenceError::EventSerialization(m) => concat_str("Event serialization error: ", m.as_str()),
            PersistenceError::EventFileNotFound(m) => concat_str("Event file not found: ", m.as_str()),
            PersistenceError::InvalidDecimal(m) => concat_str("Invalid decimal value: ", m.as_str()),
            PersistenceError::InvalidEnumValue { field, value } => {
                let mut s = concat_str("Invalid enum value: ", field.as_str());
                s.append(" = ");
                s.append(value.as_str());
                s
            },
            PersistenceError::Configuration(m) => concat_str("Configuration error: ", m.as_str()),
            PersistenceError::Other(m) => m.clone(),
        }
    }
}

/// The parts of the locked balance of a stored row: the parsed text, or
/// zero when it does not parse.
pub open spec fn locked_parts(b: BalanceRow) -> (i128, u32) {
    match decimal_parse(b.locked@) {
        Ok(p) => p,
        Err(_) => (0i128, 0u32),
    }
}

/// The identifier of a balance in messages: `wallet:currency`.
pub open spec fn balance_key(wallet_id: Seq<char>, currency_code: Seq<char>) -> Seq<char> {
    wallet_id + ":"@ + currency_code
}

/// The message when a debit asks for more than is available.
pub open spec fn short_balance_text(amount: (i128, u32), available: (i128, u32)) -> Seq<char> {
    "Insufficient balance: need "@ + decimal_text(amount) + ", available "@ + decimal_text(available)
}

/// A credit adds up without overflow: the stored available balance (zero
/// when there is none or it does not parse) plus the amount.
pub open spec fn credit_fits(current: Option<BalanceRow>, amount: Amount) -> bool {
    decimal_checked_sum(available_parts(current), amount.parts()) is Some
}

/// A debit that is covered subtracts without overflow.
pub open spec fn debit_fits(current: Option<BalanceRow>, amount: Amount) -> bool {
    current matches Some(b) ==> (decimal_parse(b.available@) matches Ok(p) ==> (parts_value(p) >= amount@
        ==> decimal_checked_difference(p, amount.parts()) is Some))
}

/// What a debit makes of a stored balance: no row is an error naming the
/// balance; an available text that does not parse is an error with the
/// parser's message; less available than asked is a configuration error;
/// otherwise the new available balance and the locked one (zero when its
/// text does not parse).
pub open spec fn debit_outcome_is(r: Result<(Amount, Amount), PersistenceError>, current: Option<BalanceRow>,
    wallet_id: Seq<char>, currency_code: Seq<char>, amount: Amount) -> bool
{
    match current {
        None => r matches Err(PersistenceError::NotFound { entity, id }) && entity@ == "Balance"@
            && id@ == balance_key(wallet_id, currency_code),
        Some(b) => match decimal_parse(b.available@) {
            Err(m) => r matches Err(PersistenceError::InvalidDecimal(x)) && x@ == m,
            Ok(p) => if parts_value(p) < amount@ {
                r matches Err(PersistenceError::Configuration(x)) && x@ == short_balance_text(amount.parts(), p)
            } else {
                r matches Ok((available, locked)) && available.parts() == decimal_difference(p, amount.parts())
                    && (pair_sub_fits(p, amount.parts()) ==> available@ == parts_value(p) - amount@)
                    && locked.parts() == locked_parts(b)
            },
        },
    }
}

/// Balances as the storage layer keeps them.
pub struct BalanceRepo;

impl BalanceRepo {
    /// The available balance after a credit: what is stored (zero when
    /// there is no row or its text does not parse) plus the amount. The
    /// locked balance is then stored as zero.
    pub fn credited(current: Option<&BalanceRow>, amount: &Amount) -> (r: Amount)
        requires
            credit_fits(match current { Some(b) => Some(*b), None => None }, *amount),
        ensures
            r.parts() == decimal_sum(available_parts(match current { Some(b) => Some(*b), None => None }),
                amount.parts()),
            pair_add_fits(available_parts(match current { Some(b) => Some(*b), None => None }), amount.parts())
                ==> r@ == parts_value(available_parts(match current { Some(b) => Some(*b), None => None })) + amount@,
    {
        let available = match current {
            Some(b) => match Amount::parse(b.available.as_str()) {
                Some(a) => a,
                None => Amount::zero(),
            },
            None => Amount::zero(),
        };
        proof { crate::decimal::lemma_value_of_parts(available); }
        available.add(amount)
    }

    /// The credit when it adds up without overflow; none otherwise.
    pub fn try_credited(current: Option<&BalanceRow>, amount: &Amount) -> (r: Option<Amount>)
        ensures
            r is Some <==> credit_fits(match current { Some(b) => Some(*b), None => None }, *amount),
            r matches Some(a) ==> a.parts() == decimal_sum(available_parts(match current {
                Some(b) => Some(*b),
                None => None,
            }), amount.parts()),
    {
        let available = match current {
            Some(b) => match Amount::parse(b.available.as_str()) {
                Some(a) => a,
                None => Amount::zero(),
            },
            None => Amount::zero(),
        };
        if available.checked_add(amount).is_some() {
            Some(Self::credited(current, amount))
        } else {
            None
        }
    }

    /// What a debit makes of a stored balance: the new available balance
    /// and the locked one, or why it cannot be made.
    pub fn debited(current: Option<&BalanceRow>, wallet_id: &str, currency_code: &str, amount: &Amount)
        -> (r: Result<(Amount, Amount), PersistenceError>)
        requires
            debit_fits(match current { Some(b) => Some(*b), None => None }, *amount),
        ensures
            debit_outcome_is(r, match current { Some(b) => Some(*b), None => None }, wallet_id@, currency_code@,
                *amount),
    {
        match current {
            None => {
                let mut id = concat_str(wallet_id, ":");
                id.append(currency_code);
                proof { reveal_strlit(":"); }
                Err(PersistenceError::not_found("Balance", &id.as_str()))
            },
            Some(b) => match Amount::try_parse(b.available.as_str()) {
                Err(m) => Err(PersistenceError::InvalidDecimal(m)),
                Ok(available) => {
                    proof {
                        crate::decimal::lemma_value_of_parts(available);
                    }
                    if available.less_than(amount) {
                        let mut m = concat_str("Insufficient balance: need ", amount.to_text().as_str());
                        m.append(", available ");
                        m.append(available.to_text().as_str());
                        proof {
                            reveal_strlit("Insufficient balance: need ");
                            reveal_strlit(", available ");
                        }
                        Err(PersistenceError::Configuration(m))
                    } else {
                        let rest = available.sub(amount);
                        let locked = match Amount::parse(b.locked.as_str()) {
                            Some(l) => l,
                            None => Amount::zero(),
                        };
                        Ok((rest, locked))
                    }
                },
            },
        }
    }

    /// The debit when a covered one subtracts without overflow; none
    /// otherwise.
    pub fn try_debited(current: Option<&BalanceRow>, wallet_id: &str, currency_code: &str, amount: &Amount)
        -> (r: Option<Result<(Amount, Amount), PersistenceError>>)
        ensures
            r is Some <==> debit_fits(match current { Some(b) => Some(*b), None => None }, *amount),
            r matches Some(d) ==> debit_outcome_is(d, match current { Some(b) => Some(*b), None => None },
                wallet_id@, currency_code@, *amount),
    {
        let fits = match current {
            None => true,
            Some(b) => match Amount::parse(b.available.as_str()) {
                None => true,
                Some(available) => {
                    proof { crate::decimal::lemma_value_of_parts(available); }
                    available.less_than(amount) || available.checked_sub(amount).is_some()
                },
            },
        };
        if fits {
            Some(Self::debited(current, wallet_id, currency_code, amount))
        } else {
            None
        }
    }
}

} // verus!
