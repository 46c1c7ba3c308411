//! Wallet types, balances and wallets, in the exchange style: an account has
//! several wallets and each wallet holds balances in several currencies.
use vstd::prelude::*;
use vstd::string::StringExecFns;
use crate::clock::now_millis;
use crate::decimal::{
    decimal_checked_difference, decimal_checked_sum, decimal_difference, decimal_sum, exact_difference_parts,
    exact_sum_parts, lemma_zero_adds, pair_add_fits, Amount,
};
use crate::text::{all_ascii, ascii_lower_all, is_code_char, lemma_code_text_lower, lowercase_text, str_eq, to_lowercase};
use super::money::{Currency, Money};

verus! {

/// The kinds of wallet.
#[derive(Debug, Clone, Copy, PartialEq, Eq, Structural)]
pub enum WalletType {
    /// Spot trading
    Spot,
    /// Deposits and withdrawals
    Funding,
    /// Margin trading
    Margin,
    /// Futures contracts
    Futures,
    /// Staking and savings
    Earn,
}

/// The code of a wallet type.
pub open spec fn wallet_type_text(t: WalletType) -> Seq<char> {
    match t {
        WalletType::Spot => "spot"@,
        WalletType::Funding => "funding"@,
        WalletType::Margin => "margin"@,
        WalletType::Futures => "futures"@,
        WalletType::Earn => "earn"@,
    }
}

/// The name of a wallet type's variant.
pub open spec fn wallet_type_name(t: WalletType) -> Seq<char> {
    match t {
        WalletType::Spot => "Spot"@,
        WalletType::Funding => "Funding"@,
        WalletType::Margin => "Margin"@,
        WalletType::Futures => "Futures"@,
        WalletType::Earn => "Earn"@,
    }
}

/// The wallet type that a lower-cased code names.
pub open spec fn wallet_type_of(w: Seq<char>) -> Option<WalletType> {
    if w == "spot"@ {
        Some(WalletType::Spot)
    } else if w == "funding"@ {
        Some(WalletType::Funding)
    } else if w == "margin"@ {
        Some(WalletType::Margin)
    } else if w == "futures"@ {
        Some(WalletType::Futures)
    } else if w == "earn"@ {
        Some(WalletType::Earn)
    } else {
        None
    }
}

impl WalletType {
    /// The code string stored in the database.
    pub fn as_str(&self) -> (r: &'static str)
        ensures
            r@ == wallet_type_text(*self),
    {
        proof {
            reveal_strlit("spot");
            reveal_strlit("funding");
            reveal_strlit("margin");
            reveal_strlit("futures");
            reveal_strlit("earn");
        }
        match self {
            WalletType::Spot => "spot",
            WalletType::Funding => "funding",
            WalletType::Margin => "margin",
            WalletType::Futures => "futures",
            WalletType::Earn => "earn",
        }
    }

    /// The variant's name, as `{:?}` prints it.
    pub fn name(&self) -> (r: &'static str)
        ensures
            r@ == wallet_type_name(*self),
    {
        proof {
            reveal_strlit("Spot");
            reveal_strlit("Funding");
            reveal_strlit("Margin");
            reveal_strlit("Futures");
            reveal_strlit("Earn");
        }
        match self {
            WalletType::Spot => "Spot",
            WalletType::Funding => "Funding",
            WalletType::Margin => "Margin",
            WalletType::Futures => "Futures",
            WalletType::Earn => "Earn",
        }
    }

    /// Parses a code, ignoring case.
    pub fn from_str(s: &str) -> (r: Option<WalletType>)
        ensures
            r == wallet_type_of(lowercase_text(s@)),
            all_ascii(s@) ==> r == wallet_type_of(ascii_lower_all(s@)),
    {
        let lower = to_lowercase(s);
        let w = lower.as_str();
        proof {
            reveal_strlit("spot");
            reveal_strlit("funding");
            reveal_strlit("margin");
            reveal_strlit("futures");
            reveal_strlit("earn");
        }
        if str_eq(w, "spot") {
            Some(WalletType::Spot)
        } else if str_eq(w, "funding") {
            Some(WalletType::Funding)
        } else if str_eq(w, "margin") {
            Some(WalletType::Margin)
        } else if str_eq(w, "futures") {
            Some(WalletType::Futures)
        } else if str_eq(w, "earn") {
            Some(WalletType::Earn)
        } else {
            None
        }
    }

    /// The wallet types of the first phase: Spot and Funding.
    pub fn phase1_types() -> (r: Vec<WalletType>)
        ensures
            r@ == seq![WalletType::Spot, WalletType::Funding],
    {
        let mut v: Vec<WalletType> = Vec::new();
        v.push(WalletType::Spot);
        v.push(WalletType::Funding);
        v
    }

    /// All wallet types.
    pub fn all_types() -> (r: Vec<WalletType>)
        ensures
            r@ == seq![WalletType::Spot, WalletType::Funding, WalletType::Margin, WalletType::Futures, WalletType::Earn],
    {
        let mut v: Vec<WalletType> = Vec::new();
        v.push(WalletType::Spot);
        v.push(WalletType::Funding);
        v.push(WalletType::Margin);
        v.push(WalletType::Futures);
        v.push(WalletType::Earn);
        v
    }
}

/// The state of a wallet.
#[derive(Debug, Clone, Copy, PartialEq, Eq, Structural)]
pub enum WalletStatus {
    Active,
    Frozen,
    Closed,
}

impl WalletStatus {
    /// The code string stored in the database.
    pub fn as_str(&self) -> (r: &'static str)
        ensures
            r@ == (match *self {
                WalletStatus::Active => "active"@,
                WalletStatus::Frozen => "frozen"@,
                WalletStatus::Closed => "closed"@,
            }),
    {
        proof {
            reveal_strlit("active");
            reveal_strlit("frozen");
            reveal_strlit("closed");
        }
        match self {
            WalletStatus::Active => "active",
            WalletStatus::Frozen => "frozen",
            WalletStatus::Closed => "closed",
        }
    }
}

/// The balance of one currency in a wallet.
#[derive(Debug)]
pub struct Balance {
    /// The currency of this balance
    pub currency: Currency,
    /// The balance available for use
    pub available: Amount,
    /// The balance locked in orders, staking or margin
    pub locked: Amount,
    /// The time of the last update, in milliseconds since the Unix epoch
    pub updated_at: i64,
}

/// The amounts a debit from `available` computes without rounding: the
/// remainder when it succeeds, the shortfall when it does not.
pub open spec fn debit_exact(available: Amount, amount: Amount) -> bool {
    if available@ >= amount@ {
        Amount::sub_fits(available, amount)
    } else {
        Amount::sub_fits(amount, available)
    }
}

/// A debit from `available` does not overflow: neither the remainder when
/// it succeeds nor the shortfall when it does not (`Decimal` subtraction
/// panics on overflow).
pub open spec fn debit_fits(available: Amount, amount: Amount) -> bool {
    if available@ >= amount@ {
        Amount::sub_fits(available, amount) || decimal_checked_difference(available.parts(), amount.parts()) is Some
    } else {
        Amount::sub_fits(amount, available) || decimal_checked_difference(amount.parts(), available.parts()) is Some
    }
}

/// A credit of `amount` to `available` does not overflow.
pub open spec fn credit_fits(available: (i128, u32), amount: (i128, u32)) -> bool {
    pair_add_fits(available, amount) || decimal_checked_sum(available, amount) is Some
}

/// What a debit of `amount` from `available` leaves (`after`) and returns:
/// when the balance covers it, the difference as `Decimal` forms it (exact
/// where no rounding is needed); otherwise the balance unchanged and the
/// shortfall as `Decimal` forms it.
pub open spec fn debit_result(available: Amount, amount: Amount, after: Amount, r: Result<(), Amount>) -> bool {
    if available@ >= amount@ {
        &&& r is Ok
        &&& after.parts() == decimal_difference(available.parts(), amount.parts())
        &&& Amount::sub_fits(available, amount) ==> after@ == available@ - amount@
            && after.parts() == exact_difference_parts(available.parts(), amount.parts())
    } else {
        &&& after == available
        &&& r matches Err(e) && e.parts() == decimal_difference(amount.parts(), available.parts())
            && (Amount::sub_fits(amount, available) ==> e@ == amount@ - available@
                && e.parts() == exact_difference_parts(amount.parts(), available.parts()))
    }
}

/// What a debit of `amount` from `available` does: the new available
/// balance and the outcome (the shortfall when the balance is too small).
pub open spec fn debit_outcome(available: int, amount: int) -> (int, Result<(), int>) {
    if available >= amount {
        (available - amount, Ok(()))
    } else {
        (available, Err(amount - available))
    }
}

/// Crediting an amount and then debiting the same amount gives back the
/// available balance one started from, when it was not negative.
pub proof fn lemma_credit_then_debit(available: int, amount: int)
    requires
        available >= 0,
    ensures
        debit_outcome(available + amount, amount) == (available, Ok::<(), int>(())),
{
}

/// A debit never leaves a non-negative available balance negative, and
/// when refused, the shortfall is positive.
pub proof fn lemma_debit_keeps_non_negative(available: int, amount: int)
    requires
        available >= 0,
    ensures
        debit_outcome(available, amount).0 >= 0,
        debit_outcome(available, amount).1 matches Err(short) ==> short > 0,
{
}

impl Balance {
    /// An empty balance: nothing available, nothing locked.
    pub fn new(currency: Currency) -> (r: Balance)
        ensures
            r.currency == currency,
            r.available@ == 0,
            r.locked@ == 0,
            r.available.parts() == (0i128, 0u32),
    {
        Balance { currency, available: Amount::zero(), locked: Amount::zero(), updated_at: now_millis() }
    }

    /// A balance with an amount available and nothing locked.
    pub fn with_amount(currency: Currency, available: Amount) -> (r: Balance)
        ensures
            r.currency == currency,
            r.available == available,
            r.locked@ == 0,
    {
        Balance { currency, available, locked: Amount::zero(), updated_at: now_millis() }
    }

    /// The total balance, available plus locked (it must not overflow).
    pub fn total(&self) -> (r: Amount)
        requires
            credit_fits(self.available.parts(), self.locked.parts()),
        ensures
            r.parts() == decimal_sum(self.available.parts(), self.locked.parts()),
            Amount::add_fits(self.available, self.locked) ==> r@ == self.available@ + self.locked@,
    {
        self.available.add(&self.locked)
    }

    /// Whether the available balance covers an amount.
    pub fn can_spend(&self, amount: Amount) -> (r: bool)
        ensures
            r == (self.available@ >= amount@),
    {
        amount.at_most(&self.available)
    }

    /// Adds an amount to the available balance (the sum must not overflow).
    pub fn credit(&mut self, amount: Amount)
        requires
            credit_fits(old(self).available.parts(), amount.parts()),
        ensures
            final(self).available.parts() == decimal_sum(old(self).available.parts(), amount.parts()),
            Amount::add_fits(old(self).available, amount) ==> final(self).available@ == old(self).available@ + amount@
                && final(self).available.parts() == exact_sum_parts(old(self).available.parts(), amount.parts()),
            final(self).locked == old(self).locked,
            final(self).currency == old(self).currency,
    {
        self.available = self.available.add(&amount);
        self.updated_at = now_millis();
    }

    /// Takes an amount from the available balance. When the available
    /// balance is smaller, nothing changes and the shortfall comes back.
    pub fn debit(&mut self, amount: Amount) -> (r: Result<(), Amount>)
        requires
            debit_fits(old(self).available, amount),
        ensures
            debit_result(old(self).available, amount, final(self).available, r),
            debit_exact(old(self).available, amount) ==> (final(self).available@, match r {
                Ok(()) => Ok(()),
                Err(e) => Err(e@),
            }) == debit_outcome(old(self).available@, amount@),
            final(self).locked == old(self).locked,
            final(self).currency == old(self).currency,
    {
        if amount.at_most(&self.available) {
            self.available = self.available.sub(&amount);
            self.updated_at = now_millis();
            Ok(())
        } else {
            Err(amount.sub(&self.available))
        }
    }

    /// The balance in words: "<available> <code>", followed by
    /// " (locked: <locked>)" when something is locked.
    pub fn display_text(&self) -> (r: String)
        ensures
            r@ == crate::decimal::decimal_text(self.available.parts()) + " "@ + self.currency.code@
                + if self.locked@ > 0 { " (locked: "@ + crate::decimal::decimal_text(self.locked.parts()) + ")"@ }
                  else { Seq::<char>::empty() },
    {
        proof {
            reveal_strlit(" ");
            reveal_strlit(" (locked: ");
            reveal_strlit(")");
        }
        let mut s = self.available.to_text();
        s.append(" ");
        s.append(self.currency.code.as_str());
        if Amount::zero().less_than(&self.locked) {
            s.append(" (locked: ");
            s.append(self.locked.to_text().as_str());
            s.append(")");
        } else {
            proof { assert(s@ =~= s@ + Seq::<char>::empty()); }
        }
        s
    }

    /// The available balance as money.
    pub fn as_money(&self) -> (r: Money)
        ensures
            r.amount == self.available,
            r.currency == self.currency,
    {
        Money::new(self.available, self.currency.clone())
    }
}

/// A user's wallet: one kind of wallet, holding a balance per currency.
#[derive(Debug)]
pub struct Wallet {
    /// The identifier (WAL_001, WAL_002, ...)
    pub id: String,
    /// The owning account's identifier
    pub account_id: String,
    /// The kind of wallet
    pub wallet_type: WalletType,
    /// The balances, at most one per currency code
    pub balances: Vec<Balance>,
    /// The state
    pub status: WalletStatus,
    /// The creation time, in milliseconds since the Unix epoch
    pub created_at: i64,
}

/// The index of the first balance among the first `n` with the currency code.
pub open spec fn balance_index(bs: Seq<Balance>, code: Seq<char>, n: int) -> Option<int>
    decreases n,
{
    if n <= 0 {
        None
    } else {
        match balance_index(bs, code, n - 1) {
            Some(k) => Some(k),
            None => if bs[n - 1].currency.code@ == code { Some(n - 1) } else { None },
        }
    }
}

/// The balance of a currency code in a list of balances.
pub open spec fn balance_of(bs: Seq<Balance>, code: Seq<char>) -> Option<Balance> {
    match balance_index(bs, code, bs.len() as int) {
        Some(k) => Some(bs[k]),
        None => None,
    }
}

/// The available amount of a currency code, zero when there is no balance.
pub open spec fn available_of(bs: Seq<Balance>, code: Seq<char>) -> int {
    match balance_of(bs, code) {
        Some(b) => b.available@,
        None => 0,
    }
}

/// The (mantissa, scale) pair of the available balance of a currency code;
/// that of zero when there is none.
pub open spec fn available_parts_of(bs: Seq<Balance>, code: Seq<char>) -> (i128, u32) {
    match balance_of(bs, code) {
        Some(b) => b.available.parts(),
        None => (0i128, 0u32),
    }
}

proof fn lemma_balance_index(bs: Seq<Balance>, code: Seq<char>, n: int)
    requires
        0 <= n <= bs.len(),
    ensures
        match balance_index(bs, code, n) {
            Some(k) => 0 <= k < n && bs[k].currency.code@ == code
                && forall|j: int| 0 <= j < k ==> bs[j].currency.code@ != code,
            None => forall|j: int| 0 <= j < n ==> bs[j].currency.code@ != code,
        },
    decreases n,
{
    if n > 0 {
        lemma_balance_index(bs, code, n - 1);
    }
}

proof fn lemma_balance_index_first(bs: Seq<Balance>, code: Seq<char>, k: int, n: int)
    requires
        0 <= k < n <= bs.len(),
        bs[k].currency.code@ == code,
        forall|j: int| 0 <= j < k ==> bs[j].currency.code@ != code,
    ensures
        balance_index(bs, code, n) == Some(k),
    decreases n,
{
    if n > k + 1 {
        lemma_balance_index_first(bs, code, k, n - 1);
    } else {
        lemma_balance_index(bs, code, k);
    }
}

/// Finds the index of the balance with a currency code.
fn find_balance(bs: &Vec<Balance>, code: &str) -> (r: Option<usize>)
    ensures
        match r {
            Some(k) => k < bs@.len() && balance_index(bs@, code@, bs@.len() as int) == Some(k as int),
            None => balance_index(bs@, code@, bs@.len() as int) is None,
        },
{
    let n = bs.len();
    let mut i: usize = 0;
    while i < n
        invariant
            n == bs@.len(),
            i <= n,
            forall|j: int| 0 <= j < i ==> bs@[j].currency.code@ != code@,
        decreases n - i,
    {
        if str_eq(bs[i].currency.code.as_str(), code) {
            proof { lemma_balance_index_first(bs@, code@, i as int, n as int); }
            return Some(i);
        }
        i = i + 1;
    }
    proof { lemma_balance_index(bs@, code@, n as int); }
    None
}

impl Wallet {
    /// The wallet's invariant: at most one balance per currency code.
    pub open spec fn wf(&self) -> bool {
        forall|i: int, j: int| 0 <= i < j < self.balances@.len()
            ==> self.balances@[i].currency.code@ != self.balances@[j].currency.code@
    }

    /// A new active wallet with no balances, created now.
    pub fn new(id: String, account_id: String, wallet_type: WalletType) -> (r: Wallet)
        ensures
            r.wf(),
            r.id@ == id@,
            r.account_id@ == account_id@,
            r.wallet_type == wallet_type,
            r.balances@.len() == 0,
            r.status == WalletStatus::Active,
    {
        Wallet { id, account_id, wallet_type, balances: Vec::new(), status: WalletStatus::Active, created_at: now_millis() }
    }

    /// The balance of a currency code.
    pub fn get_balance(&self, currency_code: &str) -> (r: Option<&Balance>)
        ensures
            match r {
                Some(b) => balance_of(self.balances@, currency_code@) == Some(*b),
                None => balance_of(self.balances@, currency_code@) is None,
            },
    {
        match find_balance(&self.balances, currency_code) {
            Some(k) => Some(&self.balances[k]),
            None => None,
        }
    }

    /// The balance of a currency, created empty when missing.
    pub fn get_or_create_balance(&mut self, currency: Currency) -> (r: &mut Balance)
        requires
            old(self).wf(),
        ensures
            match balance_index(old(self).balances@, currency.code@, old(self).balances@.len() as int) {
                Some(k) => {
                    &&& *r == old(self).balances@[k]
                    &&& final(self).balances@ == old(self).balances@.update(k, *final(r))
                },
                None => {
                    &&& r.currency == currency
                    &&& r.available@ == 0
                    &&& r.locked@ == 0
                    &&& final(self).balances@ == old(self).balances@.push(*final(r))
                },
            },
            final(self).id == old(self).id,
            final(self).account_id == old(self).account_id,
            final(self).wallet_type == old(self).wallet_type,
            final(self).status == old(self).status,
    {
        let k = match find_balance(&self.balances, currency.code.as_str()) {
            Some(k) => k,
            None => {
                self.balances.push(Balance::new(currency));
                self.balances.len() - 1
            },
        };
        &mut self.balances[k]
    }

    /// Adds an amount of a currency, creating its balance when missing.
    pub fn credit(&mut self, currency: Currency, amount: Amount)
        requires
            old(self).wf(),
            credit_fits(available_parts_of(old(self).balances@, currency.code@), amount.parts()),
        ensures
            final(self).wf(),
            balance_of(final(self).balances@, currency.code@) is Some,
            available_parts_of(final(self).balances@, currency.code@)
                == decimal_sum(available_parts_of(old(self).balances@, currency.code@), amount.parts()),
            pair_add_fits(available_parts_of(old(self).balances@, currency.code@), amount.parts()) ==> {
                &&& available_of(final(self).balances@, currency.code@)
                    == available_of(old(self).balances@, currency.code@) + amount@
                &&& available_parts_of(final(self).balances@, currency.code@)
                    == exact_sum_parts(available_parts_of(old(self).balances@, currency.code@), amount.parts())
            },
            forall|c: Seq<char>| c != currency.code@ ==> available_of(final(self).balances@, c) == available_of(old(self).balances@, c),
            final(self).id == old(self).id,
            final(self).account_id == old(self).account_id,
            final(self).wallet_type == old(self).wallet_type,
            final(self).status == old(self).status,
    {
        let code = currency.code.clone();
        let ghost old_bs = self.balances@;
        proof { lemma_balance_index(old_bs, code@, old_bs.len() as int); }
        match find_balance(&self.balances, code.as_str()) {
            Some(k) => {
                let mut b = self.balances.remove(k);
                b.credit(amount);
                self.balances.insert(k, b);
                proof {
                    assert(self.balances@ =~= old_bs.update(k as int, b));
                    self.lemma_update_keeps(old_bs, k as int, code@);
                }
            },
            None => {
                let mut b = Balance::new(currency);
                proof {
                    use_type_invariant(&amount);
                    lemma_zero_adds(amount, b.available);
                }
                b.credit(amount);
                self.balances.push(b);
                proof {
                    self.lemma_push_keeps(old_bs, code@);
                }
            },
        }
    }

    /// Takes an amount of a currency. With no balance of it the whole
    /// amount is the shortfall; otherwise as `Balance::debit`.
    pub fn debit(&mut self, currency_code: &str, amount: Amount) -> (r: Result<(), Amount>)
        requires
            old(self).wf(),
            match balance_of(old(self).balances@, currency_code@) {
                Some(b) => debit_fits(b.available, amount),
                None => true,
            },
        ensures
            final(self).wf(),
            match balance_of(old(self).balances@, currency_code@) {
                Some(b) => {
                    &&& balance_of(final(self).balances@, currency_code@) matches Some(nb)
                        && debit_result(b.available, amount, nb.available, r)
                    &&& debit_exact(b.available, amount) ==> (available_of(final(self).balances@, currency_code@),
                        match r { Ok(()) => Ok(()), Err(e) => Err(e@) }) == debit_outcome(b.available@, amount@)
                },
                None => r == Err::<(), Amount>(amount) && final(self).balances@ == old(self).balances@,
            },
            forall|c: Seq<char>| c != currency_code@ ==> available_of(final(self).balances@, c) == available_of(old(self).balances@, c),
            final(self).id == old(self).id,
            final(self).account_id == old(self).account_id,
            final(self).wallet_type == old(self).wallet_type,
            final(self).status == old(self).status,
    {
        let ghost old_bs = self.balances@;
        proof { lemma_balance_index(old_bs, currency_code@, old_bs.len() as int); }
        match find_balance(&self.balances, currency_code) {
            Some(k) => {
                let mut b = self.balances.remove(k);
                let r = b.debit(amount);
                self.balances.insert(k, b);
                proof {
                    assert(self.balances@ =~= old_bs.update(k as int, b));
                    self.lemma_update_keeps(old_bs, k as int, currency_code@);
                }
                r
            },
            None => Err(amount),
        }
    }

    /// Replacing a balance by one of the same currency keeps the invariant
    /// and the other currencies' balances.
    proof fn lemma_update_keeps(&self, old_bs: Seq<Balance>, k: int, code: Seq<char>)
        requires
            forall|i: int, j: int| 0 <= i < j < old_bs.len() ==> old_bs[i].currency.code@ != old_bs[j].currency.code@,
            0 <= k < old_bs.len(),
            old_bs[k].currency.code@ == code,
            self.balances@.len() == old_bs.len(),
            self.balances@[k].currency == old_bs[k].currency,
            forall|i: int| 0 <= i < old_bs.len() && i != k ==> self.balances@[i] == old_bs[i],
        ensures
            self.wf(),
            balance_of(self.balances@, code) == Some(self.balances@[k]),
            forall|c: Seq<char>| c != code ==> available_of(self.balances@, c) == available_of(old_bs, c),
    {
        let bs = self.balances@;
        assert forall|j: int| 0 <= j < k implies old_bs[j].currency.code@ != code by {
            assert(old_bs[j].currency.code@ != old_bs[k].currency.code@);
        }
        lemma_balance_index_first(old_bs, code, k, old_bs.len() as int);
        assert forall|c: Seq<char>| #![auto] true implies balance_index(bs, c, bs.len() as int) == balance_index(old_bs, c, old_bs.len() as int) by {
            lemma_balance_index(bs, c, bs.len() as int);
            lemma_balance_index(old_bs, c, old_bs.len() as int);
            match balance_index(old_bs, c, old_bs.len() as int) {
                Some(q) => {
                    assert(bs[q].currency.code@ == c);
                    match balance_index(bs, c, bs.len() as int) {
                        Some(p) => {
                            if p < q { assert(bs[p].currency.code@ == old_bs[p].currency.code@); }
                            if q < p { assert(bs[q].currency.code@ == c); }
                        },
                        None => {},
                    }
                },
                None => {
                    match balance_index(bs, c, bs.len() as int) {
                        Some(p) => { assert(old_bs[p].currency.code@ == bs[p].currency.code@); },
                        None => {},
                    }
                },
            }
        }
        assert forall|i: int, j: int| 0 <= i < j < bs.len() implies bs[i].currency.code@ != bs[j].currency.code@ by {
            assert(bs[i].currency.code@ == old_bs[i].currency.code@);
            assert(bs[j].currency.code@ == old_bs[j].currency.code@);
        }
        assert(balance_index(bs, code, bs.len() as int) == balance_index(old_bs, code, old_bs.len() as int));
        assert forall|c: Seq<char>| c != code implies available_of(bs, c) == available_of(old_bs, c) by {
            lemma_balance_index(bs, c, bs.len() as int);
            match balance_index(bs, c, bs.len() as int) {
                Some(p) => { assert(p != k); assert(bs[p] == old_bs[p]); },
                None => {},
            }
        }
    }

    /// Appending a balance of a new currency keeps the invariant and the
    /// other currencies' balances.
    proof fn lemma_push_keeps(&self, old_bs: Seq<Balance>, code: Seq<char>)
        requires
            forall|i: int, j: int| 0 <= i < j < old_bs.len() ==> old_bs[i].currency.code@ != old_bs[j].currency.code@,
            forall|j: int| 0 <= j < old_bs.len() ==> old_bs[j].currency.code@ != code,
            self.balances@.len() == old_bs.len() + 1,
            self.balances@.last().currency.code@ == code,
            forall|i: int| 0 <= i < old_bs.len() ==> self.balances@[i] == old_bs[i],
        ensures
            self.wf(),
            balance_of(self.balances@, code) == Some(self.balances@.last()),
            forall|c: Seq<char>| c != code ==> available_of(self.balances@, c) == available_of(old_bs, c),
    {
        let bs = self.balances@;
        let n = old_bs.len() as int;
        assert(bs.drop_last() =~= old_bs);
        assert forall|i: int, j: int| 0 <= i < j < bs.len() implies bs[i].currency.code@ != bs[j].currency.code@ by {
            assert(bs[i] == old_bs[i]);
            if j < n {
                assert(bs[j] == old_bs[j]);
            }
        }
        assert forall|j: int| 0 <= j < n implies bs[j].currency.code@ != code by {
            assert(bs[j] == old_bs[j]);
        }
        lemma_balance_index_first(bs, code, n, bs.len() as int);
        assert forall|c: Seq<char>| c != code implies available_of(bs, c) == available_of(old_bs, c) by {
            lemma_balance_index(bs, c, bs.len() as int);
            lemma_balance_index(old_bs, c, old_bs.len() as int);
            match balance_index(bs, c, bs.len() as int) {
                Some(p) => {
                    assert(p < old_bs.len());
                    match balance_index(old_bs, c, old_bs.len() as int) {
                        Some(q) => {
                            if q < p { assert(bs[q] == old_bs[q]); }
                            if p < q { assert(old_bs[p] == bs[p]); }
                        },
                        None => { assert(old_bs[p] == bs[p]); },
                    }
                },
                None => {
                    match balance_index(old_bs, c, old_bs.len() as int) {
                        Some(q) => { assert(bs[q] == old_bs[q]); },
                        None => {},
                    }
                },
            }
        }
        lemma_balance_index(bs, code, bs.len() as int);
        match balance_index(bs, code, bs.len() as int) {
            Some(p) => {
                if p < old_bs.len() { assert(bs[p] == old_bs[p]); }
            },
            None => {},
        }
    }

    /// Whether the wallet is active.
    pub fn is_active(&self) -> (r: bool)
        ensures
            r == (self.status == WalletStatus::Active),
    {
        match self.status {
            WalletStatus::Active => true,
            _ => false,
        }
    }
}


/// The code of every wallet type reads back as that type.
pub proof fn lemma_wallet_code_round_trip(t: WalletType)
    ensures
        all_ascii(wallet_type_text(t)),
        wallet_type_of(ascii_lower_all(wallet_type_text(t))) == Some(t),
{
    reveal_strlit("spot");
    reveal_strlit("funding");
    reveal_strlit("margin");
    reveal_strlit("futures");
    reveal_strlit("earn");
    let c = wallet_type_text(t);
    assert(forall|i: int| 0 <= i < c.len() ==> is_code_char(#[trigger] c[i]));
    assert(wallet_type_text(WalletType::Spot).len() != wallet_type_text(WalletType::Funding).len());
    assert(wallet_type_text(WalletType::Spot).len() != wallet_type_text(WalletType::Margin).len());
    assert(wallet_type_text(WalletType::Spot).len() != wallet_type_text(WalletType::Futures).len());
    assert(wallet_type_text(WalletType::Spot)[0] != wallet_type_text(WalletType::Earn)[0]);
    assert(wallet_type_text(WalletType::Funding).len() != wallet_type_text(WalletType::Margin).len());
    assert(wallet_type_text(WalletType::Funding)[2] != wallet_type_text(WalletType::Futures)[2]);
    assert(wallet_type_text(WalletType::Funding).len() != wallet_type_text(WalletType::Earn).len());
    assert(wallet_type_text(WalletType::Margin).len() != wallet_type_text(WalletType::Futures).len());
    assert(wallet_type_text(WalletType::Margin).len() != wallet_type_text(WalletType::Earn).len());
    assert(wallet_type_text(WalletType::Futures).len() != wallet_type_text(WalletType::Earn).len());
    lemma_code_text_lower(c);
}

} // verus!
