//! The rows of the bank's tables, as plain values, and their conversions
//! from the domain types. Times are milliseconds since the Unix epoch.
use vstd::prelude::*;
use crate::text::{uppercase_text};
use super::money::{currency_is, Currency};
use super::person::{person_type_text, Person};
use super::wallet::{wallet_type_text, WalletType};

verus! {

/// A row of `wallet_types`.
#[derive(Debug)]
pub struct WalletTypeRow {
    pub code: String,
    pub name: String,
    pub description: Option<String>,
}

/// A row of `currencies`.
#[derive(Debug)]
pub struct CurrencyRow {
    pub code: String,
    pub name: String,
    pub decimals: i32,
    pub symbol: Option<String>,
}

/// A row of `persons`.
#[derive(Debug)]
pub struct PersonRow {
    pub id: String,
    pub person_type: String,
    pub name: String,
    pub email: Option<String>,
    pub created_at: i64,
}

/// A row of `accounts`.
#[derive(Debug)]
pub struct AccountRow {
    pub id: String,
    pub person_id: String,
    pub status: String,
    pub created_at: i64,
}

/// A row of `wallets`.
#[derive(Debug)]
pub struct WalletRow {
    pub id: String,
    pub account_id: String,
    pub wallet_type: String,
    pub status: String,
    pub created_at: i64,
}

/// A row of `balances`; the amounts are stored as decimal text.
#[derive(Debug)]
pub struct BalanceRow {
    pub wallet_id: String,
    pub currency_code: String,
    pub available: String,
    pub locked: String,
    pub updated_at: i64,
}

/// A row of `transactions`; the amount is stored as decimal text.
#[derive(Debug)]
pub struct TransactionRow {
    pub id: String,
    pub account_id: String,
    pub wallet_id: String,
    pub tx_type: String,
    pub amount: String,
    pub currency_code: String,
    pub description: Option<String>,
    pub created_at: i64,
}

impl CurrencyRow {
    /// The row of a currency.
    pub fn from_currency(currency: &Currency) -> (r: CurrencyRow)
        ensures
            r.code == currency.code,
            r.name == currency.name,
            r.decimals == currency.decimals as i32,
            r.symbol == Some(currency.symbol),
    {
        CurrencyRow {
            code: currency.code.clone(),
            name: currency.name.clone(),
            decimals: currency.decimals as i32,
            symbol: Some(currency.symbol.clone()),
        }
    }

    /// The currency of a row: its code upper-cased, its decimals cut to
    /// eight bits (`as u8`), and an empty symbol when there is none.
    pub fn to_currency(&self) -> (r: Currency)
        ensures
            currency_is(r, uppercase_text(self.code@), self.name@, self.decimals as u8,
                match self.symbol { Some(s) => s@, None => Seq::<char>::empty() }),
    {
        let symbol: &str = match &self.symbol {
            Some(s) => s.as_str(),
            None => "",
        };
        proof {
            reveal_strlit("");
            assert(""@ =~= Seq::<char>::empty());
        }
        Currency::new(self.code.as_str(), self.name.as_str(), self.decimals as u8, symbol)
    }
}

impl PersonRow {
    /// The row of a person.
    pub fn from_person(person: &Person) -> (r: PersonRow)
        ensures
            r.id == person.id,
            r.person_type@ == person_type_text(person.person_type),
            r.name == person.name,
            r.email == person.email,
            r.created_at == person.created_at,
    {
        PersonRow {
            id: person.id.clone(),
            person_type: person.person_type.as_str().to_string(),
            name: person.name.clone(),
            email: match &person.email {
                Some(e) => Some(e.clone()),
                None => None,
            },
            created_at: person.created_at,
        }
    }
}

/// The display name and description of a wallet type.
pub open spec fn wallet_type_labels(t: WalletType) -> (Seq<char>, Seq<char>) {
    match t {
        WalletType::Spot => ("Spot Wallet"@, "For trading"@),
        WalletType::Funding => ("Funding Wallet"@, "For deposit/withdraw"@),
        WalletType::Margin => ("Margin Wallet"@, "For margin trading"@),
        WalletType::Futures => ("Futures Wallet"@, "For futures contracts"@),
        WalletType::Earn => ("Earn Wallet"@, "For staking/savings"@),
    }
}

impl WalletTypeRow {
    /// The row of a wallet type: its code, display name and description.
    pub fn from_wallet_type(wt: &WalletType) -> (r: WalletTypeRow)
        ensures
            r.code@ == wallet_type_text(*wt),
            r.name@ == wallet_type_labels(*wt).0,
            r.description matches Some(d) && d@ == wallet_type_labels(*wt).1,
    {
        proof {
            reveal_strlit("Spot Wallet");
            reveal_strlit("For trading");
            reveal_strlit("Funding Wallet");
            reveal_strlit("For deposit/withdraw");
            reveal_strlit("Margin Wallet");
            reveal_strlit("For margin trading");
            reveal_strlit("Futures Wallet");
            reveal_strlit("For futures contracts");
            reveal_strlit("Earn Wallet");
            reveal_strlit("For staking/savings");
        }
        let (name, desc) = match wt {
            WalletType::Spot => ("Spot Wallet", "For trading"),
            WalletType::Funding => ("Funding Wallet", "For deposit/withdraw"),
            WalletType::Margin => ("Margin Wallet", "For margin trading"),
            WalletType::Futures => ("Futures Wallet", "For futures contracts"),
            WalletType::Earn => ("Earn Wallet", "For staking/savings"),
        };
        WalletTypeRow { code: wt.as_str().to_string(), name: name.to_string(), description: Some(desc.to_string()) }
    }
}

} // verus!
