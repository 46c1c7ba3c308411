//! The transaction report and the account summary report.
use vstd::prelude::*;
use vstd::string::StringExecFns;
use crate::bank::event::{event_type_text, Event};
use crate::bank::wallet::wallet_type_text;
use crate::clock::{format_rfc3339, now_millis, rfc3339_text};
use crate::decimal::{
    decimal_checked_sum, decimal_parse, decimal_sum, decimal_text, lemma_value_of_parts, pair_add_fits, units_of, Amount,
};
use crate::text::{decimal_digits, push_decimal, str_eq};
use super::exporters::{pair_texts, table_texts, texts_of, ReportData};
use super::aml::text_or_empty;

verus! {

/// A row of the transaction report.
#[derive(Debug)]
pub struct TransactionRow {
    pub id: String,
    pub timestamp: String,
    pub tx_type: String,
    pub amount: String,
    pub currency: String,
    pub account_id: String,
    pub wallet_type: String,
    pub description: String,
}

/// The transaction report: rows and the total of their amounts.
#[derive(Debug)]
pub struct TransactionReport {
    pub title: String,
    pub transactions: Vec<TransactionRow>,
    pub total_amount: Amount,
    pub currency: String,
    /// When it was made, in milliseconds since the Unix epoch
    pub generated_at: i64,
}

/// The total after a row: its amount added when its text parses.
pub open spec fn total_after(total: (i128, u32), amount_text: Seq<char>) -> (i128, u32) {
    match decimal_parse(amount_text) {
        Ok(p) => decimal_sum(total, p),
        Err(_) => total,
    }
}

/// A row's amount can be added to the total without overflow (or does not parse).
pub open spec fn row_fits(total: (i128, u32), amount_text: Seq<char>) -> bool {
    match decimal_parse(amount_text) {
        Ok(p) => decimal_checked_sum(total, p) is Some,
        Err(_) => true,
    }
}

/// The value of a (mantissa, scale) pair.
pub open spec fn value_of(p: (i128, u32)) -> int {
    units_of(p.0 as int, p.1 as nat)
}

impl TransactionReport {
    /// An empty report, made now.
    pub fn new(title: &str, currency: &str) -> (r: TransactionReport)
        ensures
            r.title@ == title@,
            r.currency@ == currency@,
            r.transactions@.len() == 0,
            r.total_amount.parts() == (0i128, 0u32),
            r.total_amount@ == 0,
    {
        TransactionReport {
            title: title.to_string(),
            transactions: Vec::new(),
            total_amount: Amount::zero(),
            currency: currency.to_string(),
            generated_at: now_millis(),
        }
    }

    /// Adds a row; its amount is added to the total when its text parses.
    pub fn add_transaction(&mut self, row: TransactionRow)
        requires
            row_fits(old(self).total_amount.parts(), row.amount@),
        ensures
            final(self).transactions@ == old(self).transactions@.push(row),
            final(self).total_amount.parts() == total_after(old(self).total_amount.parts(), row.amount@),
            match decimal_parse(row.amount@) {
                Ok(p) => pair_add_fits(old(self).total_amount.parts(), p)
                    ==> final(self).total_amount@ == old(self).total_amount@ + value_of(p),
                Err(_) => final(self).total_amount == old(self).total_amount,
            },
            final(self).title == old(self).title,
            final(self).currency == old(self).currency,
            final(self).generated_at == old(self).generated_at,
    {
        match Amount::parse(row.amount.as_str()) {
            Some(amount) => {
                proof { lemma_value_of_parts(amount); }
                self.total_amount = self.total_amount.add(&amount);
            },
            None => {},
        }
        self.transactions.push(row);
    }

    /// Adds a row when its amount can be added without overflow, and says
    /// whether it did; otherwise the report is left as it was.
    pub fn try_add_transaction(&mut self, row: TransactionRow) -> (added: bool)
        ensures
            added == row_fits(old(self).total_amount.parts(), row.amount@),
            added ==> final(self).transactions@ == old(self).transactions@.push(row)
                && final(self).total_amount.parts() == total_after(old(self).total_amount.parts(), row.amount@),
            !added ==> final(self).transactions@ == old(self).transactions@
                && final(self).total_amount == old(self).total_amount,
            final(self).title == old(self).title,
            final(self).currency == old(self).currency,
    {
        match Amount::parse(row.amount.as_str()) {
            Some(amount) => {
                if self.total_amount.checked_add(&amount).is_none() {
                    return false;
                }
            },
            None => {},
        }
        self.add_transaction(row);
        true
    }
}

/// The wallet named on a transaction row: the destination, else the
/// source, else none.
pub open spec fn row_wallet_text(e: Event) -> Seq<char> {
    match e.to_wallet {
        Some(w) => wallet_type_text(w),
        None => match e.from_wallet {
            Some(w) => wallet_type_text(w),
            None => Seq::empty(),
        },
    }
}

/// The row an event with an amount gives.
pub open spec fn event_row_is(r: TransactionRow, e: Event) -> bool {
    &&& r.id@ == e.event_id@
    &&& r.timestamp@ == rfc3339_text(e.timestamp)
    &&& r.tx_type@ == event_type_text(e.event_type)
    &&& (e.amount matches Some(a) && r.amount@ == decimal_text(a.parts()))
    &&& r.currency@ == text_or_empty(e.currency)
    &&& r.account_id@ == e.account_id@
    &&& r.wallet_type@ == row_wallet_text(e)
    &&& r.description@ == text_or_empty(e.description)
}

/// The events with an amount, in order.
pub open spec fn with_amount(es: Seq<Event>) -> Seq<Event>
    decreases es.len(),
{
    if es.len() == 0 {
        Seq::empty()
    } else {
        let rest = with_amount(es.drop_last());
        if es.last().amount is Some { rest.push(es.last()) } else { rest }
    }
}

/// The running total over events: each amount's printed text, parsed and
/// added in order; none when a step overflows.
pub open spec fn running_total(es: Seq<Event>) -> Option<(i128, u32)>
    decreases es.len(),
{
    if es.len() == 0 {
        Some((0i128, 0u32))
    } else {
        match running_total(es.drop_last()) {
            None => None,
            Some(t) => match es.last().amount {
                None => Some(t),
                Some(a) => if row_fits(t, decimal_text(a.parts())) {
                    Some(total_after(t, decimal_text(a.parts())))
                } else {
                    None
                },
            },
        }
    }
}

/// The row of an event with an amount.
fn event_row(e: &Event) -> (r: TransactionRow)
    requires
        e.amount is Some,
    ensures
        event_row_is(r, *e),
{
    let wallet = match e.to_wallet {
        Some(w) => w.as_str().to_string(),
        None => match e.from_wallet {
            Some(w) => w.as_str().to_string(),
            None => String::new(),
        },
    };
    TransactionRow {
        id: e.event_id.clone(),
        timestamp: format_rfc3339(e.timestamp),
        tx_type: e.event_type.as_str().to_string(),
        amount: match &e.amount {
            Some(a) => a.to_text(),
            None => String::new(),
        },
        currency: match &e.currency {
            Some(c) => c.clone(),
            None => String::new(),
        },
        account_id: e.account_id.clone(),
        wallet_type: wallet,
        description: match &e.description {
            Some(d) => d.clone(),
            None => String::new(),
        },
    }
}

impl TransactionReport {
    /// The report of the events that carry an amount, in order, with no
    /// currency of its own; each amount, as printed, is added to the total.
    pub fn from_events(title: &str, events: &Vec<Event>) -> (r: TransactionReport)
        requires
            running_total(events@) is Some,
        ensures
            r.title@ == title@,
            r.currency@ == Seq::<char>::empty(),
            r.transactions@.len() == with_amount(events@).len(),
            forall|i: int| 0 <= i < r.transactions@.len() ==> #[trigger] event_row_is(r.transactions@[i], with_amount(events@)[i]),
            Some(r.total_amount.parts()) == running_total(events@),
    {
        proof { reveal_strlit(""); assert(""@ =~= Seq::<char>::empty()); }
        let mut report = TransactionReport::new(title, "");
        let ghost es = events@;
        let mut i: usize = 0;
        proof {
            assert(es.subrange(0, 0) =~= Seq::<Event>::empty());
            lemma_running_prefix(es, 0);
        }
        while i < events.len()
            invariant
                es == events@,
                i <= es.len(),
                running_total(es) is Some,
                report.title@ == title@,
                report.currency@ == Seq::<char>::empty(),
                report.transactions@.len() == with_amount(es.subrange(0, i as int)).len(),
                forall|k: int| 0 <= k < report.transactions@.len() ==>
                    #[trigger] event_row_is(report.transactions@[k], with_amount(es.subrange(0, i as int))[k]),
                Some(report.total_amount.parts()) == running_total(es.subrange(0, i as int)),
            decreases es.len() - i,
        {
            let e = &events[i];
            proof {
                lemma_running_prefix(es, i as int + 1);
                assert(es.subrange(0, i as int + 1).drop_last() == es.subrange(0, i as int));
                assert(es.subrange(0, i as int + 1).last() == *e);
            }
            if e.amount.is_some() {
                let row = event_row(e);
                let ghost before = report.transactions@;
                report.add_transaction(row);
                proof {
                    assert forall|k: int| 0 <= k < report.transactions@.len() implies
                        #[trigger] event_row_is(report.transactions@[k], with_amount(es.subrange(0, i as int + 1))[k]) by {
                        if k < before.len() {
                            assert(report.transactions@[k] == before[k]);
                        }
                    }
                }
            }
            i = i + 1;
        }
        proof {
            assert(es.subrange(0, es.len() as int) == es);
        }
        report
    }

    /// The report of the events, when every amount can be added without
    /// overflow; none otherwise.
    pub fn try_from_events(title: &str, events: &Vec<Event>) -> (r: Option<TransactionReport>)
        ensures
            r is Some <==> running_total(events@) is Some,
            r matches Some(rep) ==> rep.title@ == title@ && rep.transactions@.len() == with_amount(events@).len()
                && Some(rep.total_amount.parts()) == running_total(events@),
    {
        let ghost es = events@;
        let mut total = Amount::zero();
        let mut i: usize = 0;
        proof { assert(es.subrange(0, 0) =~= Seq::<Event>::empty()); }
        while i < events.len()
            invariant
                es == events@,
                i <= es.len(),
                Some(total.parts()) == running_total(es.subrange(0, i as int)),
            decreases es.len() - i,
        {
            let e = &events[i];
            proof {
                assert(es.subrange(0, i as int + 1).drop_last() == es.subrange(0, i as int));
                assert(es.subrange(0, i as int + 1).last() == *e);
            }
            if let Some(a) = &e.amount {
                let text = a.to_text();
                match Amount::parse(text.as_str()) {
                    Some(p) => {
                        match total.checked_add(&p) {
                            Some(t) => {
                                total = t;
                            },
                            None => {
                                proof { lemma_running_none(es, i as int + 1); }
                                return None;
                            },
                        }
                    },
                    None => {},
                }
            }
            i = i + 1;
        }
        proof { assert(es.subrange(0, es.len() as int) == es); }
        Some(Self::from_events(title, events))
    }
}

proof fn lemma_running_prefix(es: Seq<Event>, n: int)
    requires
        0 <= n <= es.len(),
        running_total(es) is Some,
    ensures
        running_total(es.subrange(0, n)) is Some,
    decreases es.len() - n,
{
    if n < es.len() {
        lemma_running_prefix(es, n + 1);
        assert(es.subrange(0, n + 1).drop_last() == es.subrange(0, n));
    } else {
        assert(es.subrange(0, n) == es);
    }
}

proof fn lemma_running_none(es: Seq<Event>, n: int)
    requires
        0 <= n <= es.len(),
        running_total(es.subrange(0, n)) is None,
    ensures
        running_total(es) is None,
    decreases es.len() - n,
{
    if n < es.len() {
        assert(es.subrange(0, n + 1).drop_last() == es.subrange(0, n));
        lemma_running_none(es, n + 1);
    } else {
        assert(es.subrange(0, n) == es);
    }
}

/// The cells of a transaction row.
pub open spec fn transaction_cells(t: TransactionRow) -> Seq<Seq<char>> {
    seq![t.id@, t.timestamp@, t.tx_type@, t.amount@, t.currency@, t.account_id@, t.wallet_type@, t.description@]
}

impl ReportData for TransactionReport {
    open spec fn title_view(&self) -> Seq<char> {
        self.title@
    }

    open spec fn headers_view(&self) -> Seq<Seq<char>> {
        seq!["ID"@, "Timestamp"@, "Type"@, "Amount"@, "Currency"@, "Account"@, "Wallet"@, "Description"@]
    }

    open spec fn rows_view(&self) -> Seq<Seq<Seq<char>>> {
        self.transactions@.map_values(|t: TransactionRow| transaction_cells(t))
    }

    open spec fn summary_view(&self) -> Seq<(Seq<char>, Seq<char>)> {
        seq![
            ("Total Transactions"@, decimal_digits(self.transactions@.len())),
            ("Total Amount"@, decimal_text(self.total_amount.parts()) + " "@ + self.currency@),
            ("Generated At"@, rfc3339_text(self.generated_at)),
        ]
    }

    fn title(&self) -> (r: &str) {
        self.title.as_str()
    }

    fn headers(&self) -> (r: Vec<String>) {
        let mut v: Vec<String> = Vec::new();
        v.push(String::from_str("ID"));
        v.push(String::from_str("Timestamp"));
        v.push(String::from_str("Type"));
        v.push(String::from_str("Amount"));
        v.push(String::from_str("Currency"));
        v.push(String::from_str("Account"));
        v.push(String::from_str("Wallet"));
        v.push(String::from_str("Description"));
        proof { assert(texts_of(v@) =~= self.headers_view()); }
        v
    }

    fn rows(&self) -> (r: Vec<Vec<String>>) {
        let mut rows: Vec<Vec<String>> = Vec::new();
        let mut i: usize = 0;
        while i < self.transactions.len()
            invariant
                i <= self.transactions@.len(),
                rows@.len() == i,
                forall|k: int| 0 <= k < i ==> texts_of(#[trigger] rows@[k]@) == transaction_cells(self.transactions@[k]),
            decreases self.transactions@.len() - i,
        {
            let t = &self.transactions[i];
            let mut row: Vec<String> = Vec::new();
            row.push(t.id.clone());
            row.push(t.timestamp.clone());
            row.push(t.tx_type.clone());
            row.push(t.amount.clone());
            row.push(t.currency.clone());
            row.push(t.account_id.clone());
            row.push(t.wallet_type.clone());
            row.push(t.description.clone());
            proof { assert(texts_of(row@) =~= transaction_cells(*t)); }
            rows.push(row);
            i = i + 1;
        }
        proof { assert(table_texts(rows@) =~= self.rows_view()); }
        rows
    }

    fn summary(&self) -> (r: Vec<(String, String)>) {
        proof { reveal_strlit(" "); }
        let mut count = String::new();
        push_decimal(&mut count, self.transactions.len() as u64);
        proof { assert(count@ =~= decimal_digits(self.transactions@.len())); }
        let mut total = self.total_amount.to_text();
        total.append(" ");
        total.append(self.currency.as_str());
        let mut v: Vec<(String, String)> = Vec::new();
        v.push((String::from_str("Total Transactions"), count));
        v.push((String::from_str("Total Amount"), total));
        v.push((String::from_str("Generated At"), format_rfc3339(self.generated_at)));
        proof { assert(pair_texts(v@) =~= self.summary_view()); }
        v
    }
}

/// A row of the account summary report.
#[derive(Debug)]
pub struct AccountSummaryRow {
    pub account_id: String,
    pub person_name: String,
    pub person_type: String,
    pub status: String,
    pub wallet_count: usize,
    pub total_balance: String,
}

/// The account summary report.
#[derive(Debug)]
pub struct AccountSummaryReport {
    pub title: String,
    pub accounts: Vec<AccountSummaryRow>,
    /// When it was made, in milliseconds since the Unix epoch
    pub generated_at: i64,
}

/// The number of rows whose status is "active".
pub open spec fn active_count(rows: Seq<AccountSummaryRow>) -> nat
    decreases rows.len(),
{
    if rows.len() == 0 {
        0
    } else {
        active_count(rows.drop_last()) + if rows.last().status@ == "active"@ { 1nat } else { 0nat }
    }
}

/// The cells of an account row.
pub open spec fn account_cells(a: AccountSummaryRow) -> Seq<Seq<char>> {
    seq![a.account_id@, a.person_name@, a.person_type@, a.status@, decimal_digits(a.wallet_count as nat), a.total_balance@]
}

impl AccountSummaryReport {
    /// An empty report, made now.
    pub fn new(title: &str) -> (r: AccountSummaryReport)
        ensures
            r.title@ == title@,
            r.accounts@.len() == 0,
    {
        AccountSummaryReport { title: title.to_string(), accounts: Vec::new(), generated_at: now_millis() }
    }

    /// Adds a row.
    pub fn add_account(&mut self, row: AccountSummaryRow)
        ensures
            final(self).accounts@ == old(self).accounts@.push(row),
            final(self).title == old(self).title,
            final(self).generated_at == old(self).generated_at,
    {
        self.accounts.push(row);
    }
}

impl ReportData for AccountSummaryReport {
    open spec fn title_view(&self) -> Seq<char> {
        self.title@
    }

    open spec fn headers_view(&self) -> Seq<Seq<char>> {
        seq!["Account ID"@, "Name"@, "Type"@, "Status"@, "Wallets"@, "Total Balance"@]
    }

    open spec fn rows_view(&self) -> Seq<Seq<Seq<char>>> {
        self.accounts@.map_values(|a: AccountSummaryRow| account_cells(a))
    }

    open spec fn summary_view(&self) -> Seq<(Seq<char>, Seq<char>)> {
        seq![
            ("Total Accounts"@, decimal_digits(self.accounts@.len())),
            ("Active Accounts"@, decimal_digits(active_count(self.accounts@))),
            ("Generated At"@, rfc3339_text(self.generated_at)),
        ]
    }

    fn title(&self) -> (r: &str) {
        self.title.as_str()
    }

    fn headers(&self) -> (r: Vec<String>) {
        let mut v: Vec<String> = Vec::new();
        v.push(String::from_str("Account ID"));
        v.push(String::from_str("Name"));
        v.push(String::from_str("Type"));
        v.push(String::from_str("Status"));
        v.push(String::from_str("Wallets"));
        v.push(String::from_str("Total Balance"));
        proof { assert(texts_of(v@) =~= self.headers_view()); }
        v
    }

    fn rows(&self) -> (r: Vec<Vec<String>>) {
        let mut rows: Vec<Vec<String>> = Vec::new();
        let mut i: usize = 0;
        while i < self.accounts.len()
            invariant
                i <= self.accounts@.len(),
                rows@.len() == i,
                forall|k: int| 0 <= k < i ==> texts_of(#[trigger] rows@[k]@) == account_cells(self.accounts@[k]),
            decreases self.accounts@.len() - i,
        {
            let a = &self.accounts[i];
            let mut count = String::new();
            push_decimal(&mut count, a.wallet_count as u64);
            proof { assert(count@ =~= decimal_digits(a.wallet_count as nat)); }
            let mut row: Vec<String> = Vec::new();
            row.push(a.account_id.clone());
            row.push(a.person_name.clone());
            row.push(a.person_type.clone());
            row.push(a.status.clone());
            row.push(count);
            row.push(a.total_balance.clone());
            proof { assert(texts_of(row@) =~= account_cells(*a)); }
            rows.push(row);
            i = i + 1;
        }
        proof { assert(table_texts(rows@) =~= self.rows_view()); }
        rows
    }

    fn summary(&self) -> (r: Vec<(String, String)>) {
        proof { reveal_strlit("active"); }
        let mut active: usize = 0;
        let mut i: usize = 0;
        while i < self.accounts.len()
            invariant
                i <= self.accounts@.len(),
                active == active_count(self.accounts@.subrange(0, i as int)),
                active <= i,
            decreases self.accounts@.len() - i,
        {
            proof {
                assert(self.accounts@.subrange(0, i as int + 1).drop_last() == self.accounts@.subrange(0, i as int));
            }
            if str_eq(self.accounts[i].status.as_str(), "active") {
                active = active + 1;
            }
            i = i + 1;
        }
        proof { assert(self.accounts@.subrange(0, self.accounts@.len() as int) == self.accounts@); }
        let mut total = String::new();
        push_decimal(&mut total, self.accounts.len() as u64);
        let mut act = String::new();
        push_decimal(&mut act, active as u64);
        proof {
            assert(total@ =~= decimal_digits(self.accounts@.len()));
            assert(act@ =~= decimal_digits(active_count(self.accounts@)));
        }
        let mut v: Vec<(String, String)> = Vec::new();
        v.push((String::from_str("Total Accounts"), total));
        v.push((String::from_str("Active Accounts"), act));
        v.push((String::from_str("Generated At"), format_rfc3339(self.generated_at)));
        proof { assert(pair_texts(v@) =~= self.summary_view()); }
        v
    }
}

} // verus!
