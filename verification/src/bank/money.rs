//! Currencies and amounts of money.
use vstd::prelude::*;
use vstd::string::StringExecFns;
use crate::decimal::{decimal_checked_difference, decimal_checked_sum, decimal_difference, decimal_sum, Amount};
use crate::text::{ascii_upper_all, str_eq, to_uppercase, uppercase_text};

verus! {

/// A currency, with its number of decimal places.
#[derive(Debug)]
pub struct Currency {
    /// The code (ISO 4217 for fiat, the symbol for crypto), upper-cased
    pub code: String,
    /// The full name
    pub name: String,
    /// The number of decimal places (VND 0, USD 2, BTC 8, ETH 18)
    pub decimals: u8,
    /// The display symbol
    pub symbol: String,
}

impl Clone for Currency {
    fn clone(&self) -> (r: Currency)
        ensures
            r == *self,
    {
        Currency { code: self.code.clone(), name: self.name.clone(), decimals: self.decimals, symbol: self.symbol.clone() }
    }
}

/// The currency's texts and decimals are as given.
pub open spec fn currency_is(c: Currency, code: Seq<char>, name: Seq<char>, decimals: u8, symbol: Seq<char>) -> bool {
    &&& c.code@ == code
    &&& c.name@ == name
    &&& c.decimals == decimals
    &&& c.symbol@ == symbol
}

impl Currency {
    /// A currency; its code is upper-cased.
    pub fn new(code: &str, name: &str, decimals: u8, symbol: &str) -> (r: Currency)
        ensures
            currency_is(r, uppercase_text(code@), name@, decimals, symbol@),
    {
        Currency { code: to_uppercase(code), name: name.to_string(), decimals, symbol: symbol.to_string() }
    }

    /// A preset whose code is already upper case.
    fn preset(code: &str, name: &str, decimals: u8, symbol: &str) -> (r: Currency)
        requires
            ascii_upper_all(code@) == code@,
            forall|i: int| 0 <= i < code@.len() ==> 'A' <= #[trigger] code@[i] <= 'Z',
        ensures
            currency_is(r, code@, name@, decimals, symbol@),
    {
        proof {
            assert forall|i: int| 0 <= i < code@.len() implies crate::text::is_ascii_char(#[trigger] code@[i]) by {
                assert('A' <= code@[i] <= 'Z');
            }
        }
        Currency { code: to_uppercase(code), name: name.to_string(), decimals, symbol: symbol.to_string() }
    }

    /// The currency in words: its code.
    pub fn display_text(&self) -> (r: String)
        ensures
            r@ == self.code@,
    {
        self.code.clone()
    }

    /// Vietnamese Dong (0 decimals)
    pub fn vnd() -> (r: Currency)
        ensures
            currency_is(r, "VND"@, "Vietnamese Dong"@, 0, "₫"@),
    {
        proof { reveal_strlit("VND"); assert(ascii_upper_all("VND"@) =~= "VND"@); }
        Self::preset("VND", "Vietnamese Dong", 0, "₫")
    }

    /// US Dollar (2 decimals)
    pub fn usd() -> (r: Currency)
        ensures
            currency_is(r, "USD"@, "US Dollar"@, 2, "$"@),
    {
        proof { reveal_strlit("USD"); assert(ascii_upper_all("USD"@) =~= "USD"@); }
        Self::preset("USD", "US Dollar", 2, "$")
    }

    /// Tether USDT (6 decimals)
    pub fn usdt() -> (r: Currency)
        ensures
            currency_is(r, "USDT"@, "Tether"@, 6, "₮"@),
    {
        proof { reveal_strlit("USDT"); assert(ascii_upper_all("USDT"@) =~= "USDT"@); }
        Self::preset("USDT", "Tether", 6, "₮")
    }

    /// USD Coin (6 decimals)
    pub fn usdc() -> (r: Currency)
        ensures
            currency_is(r, "USDC"@, "USD Coin"@, 6, "$"@),
    {
        proof { reveal_strlit("USDC"); assert(ascii_upper_all("USDC"@) =~= "USDC"@); }
        Self::preset("USDC", "USD Coin", 6, "$")
    }

    /// Bitcoin (8 decimals)
    pub fn btc() -> (r: Currency)
        ensures
            currency_is(r, "BTC"@, "Bitcoin"@, 8, "₿"@),
    {
        proof { reveal_strlit("BTC"); assert(ascii_upper_all("BTC"@) =~= "BTC"@); }
        Self::preset("BTC", "Bitcoin", 8, "₿")
    }

    /// Ethereum (18 decimals)
    pub fn eth() -> (r: Currency)
        ensures
            currency_is(r, "ETH"@, "Ethereum"@, 18, "Ξ"@),
    {
        proof { reveal_strlit("ETH"); assert(ascii_upper_all("ETH"@) =~= "ETH"@); }
        Self::preset("ETH", "Ethereum", 18, "Ξ")
    }

    /// Dogecoin (8 decimals)
    pub fn doge() -> (r: Currency)
        ensures
            currency_is(r, "DOGE"@, "Dogecoin"@, 8, "Ð"@),
    {
        proof { reveal_strlit("DOGE"); assert(ascii_upper_all("DOGE"@) =~= "DOGE"@); }
        Self::preset("DOGE", "Dogecoin", 8, "Ð")
    }

    /// Cardano (6 decimals)
    pub fn ada() -> (r: Currency)
        ensures
            currency_is(r, "ADA"@, "Cardano"@, 6, "₳"@),
    {
        proof { reveal_strlit("ADA"); assert(ascii_upper_all("ADA"@) =~= "ADA"@); }
        Self::preset("ADA", "Cardano", 6, "₳")
    }
}

/// An amount of money in a currency.
#[derive(Debug)]
pub struct Money {
    /// The amount
    pub amount: Amount,
    /// The currency
    pub currency: Currency,
}

impl Money {
    /// Money of an amount in a currency.
    pub fn new(amount: Amount, currency: Currency) -> (r: Money)
        ensures
            r.amount == amount,
            r.currency == currency,
    {
        Money { amount, currency }
    }

    /// No money in a currency.
    pub fn zero(currency: Currency) -> (r: Money)
        ensures
            r.amount@ == 0,
            r.currency == currency,
    {
        Money { amount: Amount::zero(), currency }
    }

    /// Whether the amount is above zero.
    pub fn is_positive(&self) -> (r: bool)
        ensures
            r == (self.amount@ > 0),
    {
        Amount::zero().less_than(&self.amount)
    }

    /// Whether the amount is zero.
    pub fn is_zero(&self) -> (r: bool)
        ensures
            r == (self.amount@ == 0),
    {
        self.amount.compare(&Amount::zero()) == 0
    }

    /// Whether the amount is below zero.
    pub fn is_negative(&self) -> (r: bool)
        ensures
            r == (self.amount@ < 0),
    {
        self.amount.less_than(&Amount::zero())
    }

    /// The money in words: "<amount> <code>", the amount as `Decimal` prints it.
    pub fn display_text(&self) -> (r: String)
        ensures
            r@ == crate::decimal::decimal_text(self.amount.parts()) + " "@ + self.currency.code@,
    {
        proof { reveal_strlit(" "); }
        let mut s = self.amount.to_text();
        s.append(" ");
        s.append(self.currency.code.as_str());
        s
    }

    /// The sum of two amounts in one currency (the currencies must match,
    /// and the sum must not overflow): exact where no rounding is needed.
    pub fn add(&self, other: &Money) -> (r: Money)
        requires
            self.currency.code@ == other.currency.code@,
            Amount::add_fits(self.amount, other.amount)
                || decimal_checked_sum(self.amount.parts(), other.amount.parts()) is Some,
        ensures
            Amount::add_fits(self.amount, other.amount) ==> r.amount@ == self.amount@ + other.amount@,
            r.amount.parts() == decimal_sum(self.amount.parts(), other.amount.parts()),
            r.currency == self.currency,
    {
        Money { amount: self.amount.add(&other.amount), currency: self.currency.clone() }
    }

    /// The sum, or none where the currencies differ or the sum overflows.
    pub fn try_add(&self, other: &Money) -> (r: Option<Money>)
        ensures
            match r {
                Some(m) => self.currency.code@ == other.currency.code@
                    && decimal_checked_sum(self.amount.parts(), other.amount.parts()) == Some(m.amount.parts())
                    && (Amount::add_fits(self.amount, other.amount) ==> m.amount@ == self.amount@ + other.amount@)
                    && m.currency == self.currency,
                None => self.currency.code@ != other.currency.code@
                    || decimal_checked_sum(self.amount.parts(), other.amount.parts()) is None,
            },
    {
        if !str_eq(self.currency.code.as_str(), other.currency.code.as_str()) {
            return None;
        }
        match self.amount.checked_add(&other.amount) {
            Some(_) => Some(self.add(other)),
            None => None,
        }
    }

    /// The difference of two amounts in one currency (the currencies must
    /// match, and the difference must not overflow): exact where no rounding
    /// is needed.
    pub fn sub(&self, other: &Money) -> (r: Money)
        requires
            self.currency.code@ == other.currency.code@,
            Amount::sub_fits(self.amount, other.amount)
                || decimal_checked_difference(self.amount.parts(), other.amount.parts()) is Some,
        ensures
            Amount::sub_fits(self.amount, other.amount) ==> r.amount@ == self.amount@ - other.amount@,
            r.amount.parts() == decimal_difference(self.amount.parts(), other.amount.parts()),
            r.currency == self.currency,
    {
        Money { amount: self.amount.sub(&other.amount), currency: self.currency.clone() }
    }

    /// The difference, or none where the currencies differ or it overflows.
    pub fn try_sub(&self, other: &Money) -> (r: Option<Money>)
        ensures
            match r {
                Some(m) => self.currency.code@ == other.currency.code@
                    && decimal_checked_difference(self.amount.parts(), other.amount.parts()) == Some(m.amount.parts())
                    && (Amount::sub_fits(self.amount, other.amount) ==> m.amount@ == self.amount@ - other.amount@)
                    && m.currency == self.currency,
                None => self.currency.code@ != other.currency.code@
                    || decimal_checked_difference(self.amount.parts(), other.amount.parts()) is None,
            },
    {
        if !str_eq(self.currency.code.as_str(), other.currency.code.as_str()) {
            return None;
        }
        match self.amount.checked_sub(&other.amount) {
            Some(_) => Some(self.sub(other)),
            None => None,
        }
    }

    /// The amount multiplied by a factor, in the same currency.
    pub fn mul(&self, multiplier: Amount) -> (r: Money)
        requires
            Amount::mul_fits(self.amount, multiplier),
        ensures
            r.amount@ == crate::decimal::units_of(
                self.amount.parts().0 * multiplier.parts().0,
                (self.amount.parts().1 + multiplier.parts().1) as nat,
            ),
            r.currency == self.currency,
    {
        Money { amount: self.amount.mul(&multiplier), currency: self.currency.clone() }
    }
}

} // verus!
