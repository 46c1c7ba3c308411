//! The velocity report: per account, how fast transactions follow each
//! other, to spot structuring.
use vstd::prelude::*;
use vstd::string::StringExecFns;
use crate::bank::event::Event;
use crate::clock::now_millis;
use crate::decimal::{decimal_checked_sum, decimal_text, Amount};
use crate::clock::{format_rfc3339, rfc3339_text};
use crate::text::{decimal_digits, push_decimal, push_signed, signed_digits, str_eq};
use super::aml::{risk_rank, risk_text, RiskLevel};
use super::exporters::{pair_texts, table_texts, texts_of, ReportData};

verus! {

/// The analysis of one account.
#[derive(Debug)]
pub struct VelocityAnalysis {
    pub account_id: String,
    pub transaction_count: usize,
    /// The total of the amounts, as `Decimal` prints it
    pub total_amount: String,
    /// Minutes from the first transaction to the last
    pub time_span_minutes: i64,
    /// The mean minutes between two transactions, in words
    pub avg_transaction_interval: String,
    pub risk_level: RiskLevel,
    /// The event identifiers, in time order
    pub transactions: Vec<String>,
}

/// The velocity report.
#[derive(Debug)]
pub struct VelocityReport {
    pub title: String,
    /// When it was made, in milliseconds since the Unix epoch
    pub generated_at: i64,
    pub analysis_window_hours: u32,
    pub accounts: Vec<VelocityAnalysis>,
}

impl VelocityReport {
    /// An empty report, made now.
    pub fn new(title: &str, window_hours: u32) -> (r: VelocityReport)
        ensures
            r.title@ == title@,
            r.analysis_window_hours == window_hours,
            r.accounts@.len() == 0,
    {
        VelocityReport { title: title.to_string(), generated_at: now_millis(), analysis_window_hours: window_hours,
            accounts: Vec::new() }
    }
}

// ---------------------------------------------------------------------------
// Time order
// ---------------------------------------------------------------------------

/// The index of the first event later than a time, or the length.
pub open spec fn first_later(s: Seq<Event>, t: i64) -> int
    decreases s.len(),
{
    if s.len() == 0 {
        0
    } else if s[0].timestamp > t {
        0
    } else {
        1 + first_later(s.drop_first(), t)
    }
}

/// The events in time order, those of equal time in their given order:
/// each event in turn goes after every earlier one that is not later.
pub open spec fn time_sorted(s: Seq<Event>) -> Seq<Event>
    decreases s.len(),
{
    if s.len() == 0 {
        Seq::empty()
    } else {
        let sorted = time_sorted(s.drop_last());
        sorted.insert(first_later(sorted, s.last().timestamp), s.last())
    }
}

proof fn lemma_first_later_bounds(s: Seq<Event>, t: i64)
    ensures
        0 <= first_later(s, t) <= s.len(),
        forall|i: int| 0 <= i < first_later(s, t) ==> s[i].timestamp <= t,
        first_later(s, t) < s.len() ==> s[first_later(s, t)].timestamp > t,
    decreases s.len(),
{
    if s.len() > 0 && s[0].timestamp <= t {
        lemma_first_later_bounds(s.drop_first(), t);
        assert forall|i: int| 0 <= i < first_later(s, t) implies s[i].timestamp <= t by {
            if i > 0 {
                assert(s[i] == s.drop_first()[i - 1]);
            }
        }
    }
}

proof fn lemma_time_sorted_len(s: Seq<Event>)
    ensures
        time_sorted(s).len() == s.len(),
    decreases s.len(),
{
    if s.len() > 0 {
        lemma_time_sorted_len(s.drop_last());
        lemma_first_later_bounds(time_sorted(s.drop_last()), s.last().timestamp);
    }
}

/// Where an event goes among events in time order.
fn find_first_later(sorted: &Vec<&Event>, t: i64) -> (r: usize)
    ensures
        r as int == first_later(sorted@.map_values(|e: &Event| *e), t),
{
    let ghost v = sorted@.map_values(|e: &Event| *e);
    let mut i: usize = 0;
    while i < sorted.len()
        invariant
            v == sorted@.map_values(|e: &Event| *e),
            i <= sorted@.len(),
            forall|k: int| 0 <= k < i ==> v[k].timestamp <= t,
        decreases sorted@.len() - i,
    {
        if sorted[i].timestamp > t {
            proof { lemma_first_later_at(v, t, i as int); }
            return i;
        }
        i = i + 1;
    }
    proof { lemma_first_later_at(v, t, i as int); }
    i
}

proof fn lemma_first_later_at(s: Seq<Event>, t: i64, i: int)
    requires
        0 <= i <= s.len(),
        forall|k: int| 0 <= k < i ==> s[k].timestamp <= t,
        i == s.len() || s[i].timestamp > t,
    ensures
        first_later(s, t) == i,
    decreases s.len(),
{
    if s.len() > 0 && i > 0 {
        assert forall|k: int| 0 <= k < i - 1 implies s.drop_first()[k].timestamp <= t by {
            assert(s.drop_first()[k] == s[k + 1]);
        }
        if i < s.len() {
            assert(s.drop_first()[i - 1] == s[i]);
        }
        lemma_first_later_at(s.drop_first(), t, i - 1);
    }
}

/// The events of a list in time order (a stable sort).
pub fn sort_by_time<'a>(events: &Vec<&'a Event>) -> (r: Vec<&'a Event>)
    ensures
        r@.map_values(|e: &Event| *e) == time_sorted(events@.map_values(|e: &Event| *e)),
{
    let ghost all = events@.map_values(|e: &Event| *e);
    let mut out: Vec<&'a Event> = Vec::new();
    let mut i: usize = 0;
    proof { assert(all.subrange(0, 0) =~= Seq::<Event>::empty()); }
    while i < events.len()
        invariant
            all == events@.map_values(|e: &Event| *e),
            i <= events@.len(),
            out@.map_values(|e: &Event| *e) == time_sorted(all.subrange(0, i as int)),
        decreases events@.len() - i,
    {
        let e = events[i];
        let p = find_first_later(&out, e.timestamp);
        proof {
            let prefix = all.subrange(0, i as int + 1);
            assert(prefix.drop_last() =~= all.subrange(0, i as int));
            assert(prefix.last() == *e);
            lemma_time_sorted_len(all.subrange(0, i as int));
            lemma_first_later_bounds(out@.map_values(|x: &Event| *x), e.timestamp);
        }
        let ghost before = out@;
        out.insert(p, e);
        proof {
            assert(out@.map_values(|x: &Event| *x) =~= before.map_values(|x: &Event| *x).insert(p as int, *e));
        }
        i = i + 1;
    }
    proof { assert(all.subrange(0, events@.len() as int) == all); }
    out
}

// ---------------------------------------------------------------------------
// Risk
// ---------------------------------------------------------------------------

/// The risk of an account's pace: over five transactions less than five
/// minutes apart on average is critical; over three less than thirty
/// minutes apart is high; over two less than an hour apart is medium.
/// The mean is the span over the number of gaps, compared exactly: for
/// fewer than 2^48 transactions this is also what the comparison of the
/// floating-point quotient gives, as its rounding cannot reach the bound.
pub open spec fn pace_risk(span_minutes: int, count: int) -> RiskLevel {
    let gaps = count - 1;
    if count > 5 && span_minutes < 5 * gaps {
        RiskLevel::Critical
    } else if count > 3 && span_minutes < 30 * gaps {
        RiskLevel::High
    } else if count > 2 && span_minutes < 60 * gaps {
        RiskLevel::Medium
    } else {
        RiskLevel::Low
    }
}

/// The risk of an account's pace.
pub fn velocity_risk(span_minutes: i64, count: usize) -> (r: RiskLevel)
    requires
        count >= 2,
        count < 0x1_0000_0000_0000,
    ensures
        r == pace_risk(span_minutes as int, count as int),
{
    let gaps = (count - 1) as i128;
    let span = span_minutes as i128;
    if count > 5 && span < 5 * gaps {
        RiskLevel::Critical
    } else if count > 3 && span < 30 * gaps {
        RiskLevel::High
    } else if count > 2 && span < 60 * gaps {
        RiskLevel::Medium
    } else {
        RiskLevel::Low
    }
}

/// The whole minutes from one time to a later one, as `chrono` counts them.
pub open spec fn minutes_between(first: i64, last: i64) -> int {
    (last - first) / 60000
}

/// Whole minutes between two times in milliseconds, the first not later.
pub fn span_minutes(first: i64, last: i64) -> (r: i64)
    requires
        first <= last,
    ensures
        r as int == minutes_between(first, last),
{
    let d = (last as i128) - (first as i128);
    proof {
        assert(d < 0x1_0000_0000_0000_0000i128);
        assert(d / 60000 < 0x8000_0000_0000_0000i128) by (nonlinear_arith)
            requires 0 <= d < 0x1_0000_0000_0000_0000i128;
    }
    (d / 60000) as i64
}


// ---------------------------------------------------------------------------
// Accounts
// ---------------------------------------------------------------------------

/// The events with an amount on an account, in order.
pub open spec fn account_events(es: Seq<Event>, key: Seq<char>) -> Seq<Event>
    decreases es.len(),
{
    if es.len() == 0 {
        Seq::empty()
    } else {
        let rest = account_events(es.drop_last(), key);
        if es.last().amount is Some && es.last().account_id@ == key { rest.push(es.last()) } else { rest }
    }
}

/// The accounts of the events with an amount, each once, in the order they
/// first occur.
pub open spec fn account_keys(es: Seq<Event>) -> Seq<Seq<char>>
    decreases es.len(),
{
    if es.len() == 0 {
        Seq::empty()
    } else {
        let before = account_keys(es.drop_last());
        if es.last().amount is Some && !before.contains(es.last().account_id@) {
            before.push(es.last().account_id@)
        } else {
            before
        }
    }
}

/// The events of one account.
#[derive(Debug)]
pub struct AccountGroup<'a> {
    pub account_id: String,
    pub events: Vec<&'a Event>,
}

/// The values of a list of references.
pub open spec fn derefs<'a>(v: Seq<&'a Event>) -> Seq<Event> {
    v.map_values(|e: &Event| *e)
}

proof fn lemma_keys_absent(es: Seq<Event>, key: Seq<char>)
    requires
        !account_keys(es).contains(key),
    ensures
        account_events(es, key).len() == 0,
    decreases es.len(),
{
    if es.len() > 0 {
        let before = account_keys(es.drop_last());
        if before.contains(key) {
            let i = choose|i: int| 0 <= i < before.len() && before[i] == key;
            if es.last().amount is Some && !before.contains(es.last().account_id@) {
                assert(before.push(es.last().account_id@)[i] == key);
            }
        }
        lemma_keys_absent(es.drop_last(), key);
        if es.last().amount is Some && es.last().account_id@ == key && !before.contains(key) {
            assert(before.push(key)[before.len() as int] == key);
        }
    }
}

proof fn lemma_keys_distinct(es: Seq<Event>)
    ensures
        forall|i: int, j: int| 0 <= i < j < account_keys(es).len() ==> account_keys(es)[i] != account_keys(es)[j],
    decreases es.len(),
{
    if es.len() > 0 {
        lemma_keys_distinct(es.drop_last());
        let before = account_keys(es.drop_last());
        if es.last().amount is Some && !before.contains(es.last().account_id@) {
            let t = before.push(es.last().account_id@);
            assert forall|i: int, j: int| 0 <= i < j < t.len() implies t[i] != t[j] by {
                if j == before.len() {
                    assert(t[i] == before[i]);
                }
            }
        }
    }
}

/// Where an account's group stands.
fn find_account_group(groups: &Vec<AccountGroup>, account_id: &str) -> (r: Option<usize>)
    ensures
        match r {
            Some(k) => k < groups@.len() && groups@[k as int].account_id@ == account_id@,
            None => forall|q: int| 0 <= q < groups@.len() ==> groups@[q].account_id@ != account_id@,
        },
{
    let mut k: usize = 0;
    while k < groups.len()
        invariant
            k <= groups@.len(),
            forall|q: int| 0 <= q < k ==> groups@[q].account_id@ != account_id@,
        decreases groups@.len() - k,
    {
        if str_eq(groups[k].account_id.as_str(), account_id) {
            return Some(k);
        }
        k = k + 1;
    }
    None
}

/// The events with an amount, grouped by account in the order accounts
/// first occur; each group in the events' order.
pub fn group_by_account<'a>(events: &'a Vec<Event>) -> (r: Vec<AccountGroup<'a>>)
    ensures
        r@.len() == account_keys(events@).len(),
        forall|k: int| 0 <= k < r@.len() ==> {
            &&& (#[trigger] r@[k]).account_id@ == account_keys(events@)[k]
            &&& derefs(r@[k].events@) == account_events(events@, account_keys(events@)[k])
        },
{
    let ghost es = events@;
    let mut groups: Vec<AccountGroup<'a>> = Vec::new();
    let mut i: usize = 0;
    proof { assert(es.subrange(0, 0) =~= Seq::<Event>::empty()); }
    while i < events.len()
        invariant
            es == events@,
            i <= es.len(),
            groups@.len() == account_keys(es.subrange(0, i as int)).len(),
            forall|k: int| 0 <= k < groups@.len() ==> {
                &&& (#[trigger] groups@[k]).account_id@ == account_keys(es.subrange(0, i as int))[k]
                &&& derefs(groups@[k].events@) == account_events(es.subrange(0, i as int), account_keys(es.subrange(0, i as int))[k])
            },
        decreases es.len() - i,
    {
        let e = &events[i];
        let ghost pre = es.subrange(0, i as int);
        let ghost post = es.subrange(0, i as int + 1);
        proof {
            assert(post.drop_last() == pre);
            assert(post.last() == *e);
            lemma_keys_distinct(pre);
        }
        if e.amount.is_some() {
            let found = find_account_group(&groups, e.account_id.as_str());
            let ghost mid = groups@;
            match found {
                Some(k) => {
                    groups[k].events.push(e);
                    proof {
                        assert forall|q: int| 0 <= q < groups@.len() implies {
                            &&& (#[trigger] groups@[q]).account_id@ == account_keys(post)[q]
                            &&& derefs(groups@[q].events@) == account_events(post, account_keys(post)[q])
                        } by {
                            if q == k as int {
                                assert(derefs(groups@[q].events@) =~= derefs(mid[q].events@).push(*e));
                            } else {
                                assert(groups@[q] == mid[q]);
                                assert(account_keys(pre)[q] != e.account_id@);
                            }
                        }
                    }
                },
                None => {
                    proof {
                        assert(!account_keys(pre).contains(e.account_id@)) by {
                            if account_keys(pre).contains(e.account_id@) {
                                let q = choose|q: int| 0 <= q < account_keys(pre).len() && account_keys(pre)[q] == e.account_id@;
                                assert(groups@[q].account_id@ == e.account_id@);
                            }
                        }
                        lemma_keys_absent(pre, e.account_id@);
                    }
                    let mut v: Vec<&'a Event> = Vec::new();
                    v.push(e);
                    groups.push(AccountGroup { account_id: e.account_id.clone(), events: v });
                    proof {
                        assert forall|q: int| 0 <= q < groups@.len() implies {
                            &&& (#[trigger] groups@[q]).account_id@ == account_keys(post)[q]
                            &&& derefs(groups@[q].events@) == account_events(post, account_keys(post)[q])
                        } by {
                            if q == mid.len() {
                                assert(derefs(groups@[q].events@) =~= seq![*e]);
                                assert(account_events(post, e.account_id@) =~= account_events(pre, e.account_id@).push(*e));
                            } else {
                                assert(groups@[q] == mid[q]);
                                assert(account_keys(pre)[q] != e.account_id@);
                            }
                        }
                    }
                },
            }
        } else {
            proof {
                assert forall|q: int| 0 <= q < groups@.len() implies {
                    &&& (#[trigger] groups@[q]).account_id@ == account_keys(post)[q]
                    &&& derefs(groups@[q].events@) == account_events(post, account_keys(post)[q])
                } by {
                }
            }
        }
        i = i + 1;
    }
    proof { assert(es.subrange(0, es.len() as int) == es); }
    groups
}


proof fn lemma_time_sorted_sorted(s: Seq<Event>)
    ensures
        forall|i: int, j: int| 0 <= i < j < time_sorted(s).len() ==> time_sorted(s)[i].timestamp <= time_sorted(s)[j].timestamp,
    decreases s.len(),
{
    if s.len() > 0 {
        let sorted = time_sorted(s.drop_last());
        let t = s.last().timestamp;
        lemma_time_sorted_sorted(s.drop_last());
        lemma_first_later_bounds(sorted, t);
        let p = first_later(sorted, t);
        let r = sorted.insert(p, s.last());
        assert forall|i: int, j: int| 0 <= i < j < r.len() implies r[i].timestamp <= r[j].timestamp by {
            if j < p {
                assert(r[i] == sorted[i] && r[j] == sorted[j]);
            } else if j == p {
                assert(r[i] == sorted[i]);
            } else if i < p {
                assert(r[i] == sorted[i] && r[j] == sorted[j - 1]);
                if i < j - 1 {
                } else {
                }
            } else if i == p {
                assert(r[j] == sorted[j - 1]);
                assert(sorted[p].timestamp > t);
                if j - 1 > p {
                    assert(sorted[p].timestamp <= sorted[j - 1].timestamp);
                }
            } else {
                assert(r[i] == sorted[i - 1] && r[j] == sorted[j - 1]);
            }
        }
    }
}

/// The total of the amounts of events, added in order from zero as
/// `Decimal` adds them; none when a step overflows.
pub open spec fn amount_total(s: Seq<Event>) -> Option<(i128, u32)>
    decreases s.len(),
{
    if s.len() == 0 {
        Some((0i128, 0u32))
    } else {
        match amount_total(s.drop_last()) {
            None => None,
            Some(t) => match s.last().amount {
                None => Some(t),
                Some(a) => decimal_checked_sum(t, a.parts()),
            },
        }
    }
}

/// An account's events with an amount, in time order.
pub open spec fn account_sorted(es: Seq<Event>, key: Seq<char>) -> Seq<Event> {
    time_sorted(account_events(es, key))
}

/// The minutes from an account's first transaction to its last.
pub open spec fn account_span(es: Seq<Event>, key: Seq<char>) -> int {
    let s = account_sorted(es, key);
    minutes_between(s[0].timestamp, s.last().timestamp)
}

/// The risk of an account's pace.
pub open spec fn account_risk(es: Seq<Event>, key: Seq<char>) -> RiskLevel {
    pace_risk(account_span(es, key), account_events(es, key).len() as int)
}

/// The accounts with two or more transactions whose risk has a rank, in order.
pub open spec fn ranked_keys(keys: Seq<Seq<char>>, es: Seq<Event>, rank: int) -> Seq<Seq<char>>
    decreases keys.len(),
{
    if keys.len() == 0 {
        Seq::empty()
    } else {
        let rest = ranked_keys(keys.drop_last(), es, rank);
        let k = keys.last();
        if account_events(es, k).len() >= 2 && risk_rank(account_risk(es, k)) == rank { rest.push(k) } else { rest }
    }
}

/// The accounts the report analyzes, riskiest first; accounts of equal risk
/// in the order they first occur.
pub open spec fn report_keys(es: Seq<Event>) -> Seq<Seq<char>> {
    let keys = account_keys(es);
    ranked_keys(keys, es, 4) + ranked_keys(keys, es, 3) + ranked_keys(keys, es, 2) + ranked_keys(keys, es, 1)
}

/// The identifiers of events.
pub open spec fn event_ids(s: Seq<Event>) -> Seq<Seq<char>> {
    s.map_values(|e: Event| e.event_id@)
}

/// What the analysis of an account holds, given how the mean interval is
/// put in words.
pub open spec fn analysis_is<F: Fn(i64, usize) -> String>(a: VelocityAnalysis, es: Seq<Event>, key: Seq<char>,
    interval_text: F) -> bool
{
    let s = account_sorted(es, key);
    &&& a.account_id@ == key
    &&& a.transaction_count == s.len()
    &&& (amount_total(s) matches Some(t) && a.total_amount@ == decimal_text(t))
    &&& a.time_span_minutes == account_span(es, key)
    &&& call_ensures(interval_text, (a.time_span_minutes, (s.len() - 1) as usize), a.avg_transaction_interval)
    &&& a.risk_level == account_risk(es, key)
    &&& a.transactions@.map_values(|t: String| t@) == event_ids(s)
}


/// The analysis of one account's events, in time order.
fn analyze<F: Fn(i64, usize) -> String>(group: &AccountGroup, interval_text: &F, Ghost(es): Ghost<Seq<Event>>)
    -> (a: VelocityAnalysis)
    requires
        derefs(group.events@) == account_events(es, group.account_id@),
        group.events@.len() >= 2,
        group.events@.len() < 0x1_0000_0000_0000,
        amount_total(account_sorted(es, group.account_id@)) is Some,
        forall|x: i64, y: usize| interval_text.requires((x, y)),
    ensures
        analysis_is(a, es, group.account_id@, *interval_text),
{
    let sorted = sort_by_time(&group.events);
    let ghost s = account_sorted(es, group.account_id@);
    proof {
        lemma_time_sorted_len(derefs(group.events@));
        lemma_time_sorted_sorted(derefs(group.events@));
        assert(derefs(sorted@) == s);
    }
    let n = sorted.len();
    let mut total = Amount::zero();
    let mut ids: Vec<String> = Vec::new();
    let mut i: usize = 0;
    proof { assert(s.subrange(0, 0) =~= Seq::<Event>::empty()); }
    while i < n
        invariant
            n == sorted@.len(),
            derefs(sorted@) == s,
            amount_total(s) is Some,
            i <= n,
            Some(total.parts()) == amount_total(s.subrange(0, i as int)),
            ids@.map_values(|t: String| t@) == event_ids(s.subrange(0, i as int)),
        decreases n - i,
    {
        let e = sorted[i];
        proof {
            assert(s.subrange(0, i as int + 1).drop_last() == s.subrange(0, i as int));
            assert(s.subrange(0, i as int + 1).last() == *e);
            lemma_total_prefix_some(s, i as int + 1);
        }
        if let Some(a) = &e.amount {
            total = total.add(a);
        }
        let ghost old_ids = ids@;
        ids.push(e.event_id.clone());
        proof {
            assert(ids@.map_values(|t: String| t@) =~= old_ids.map_values(|t: String| t@).push(e.event_id@));
            assert(event_ids(s.subrange(0, i as int + 1)) =~= event_ids(s.subrange(0, i as int)).push(e.event_id@));
        }
        i = i + 1;
    }
    proof { assert(s.subrange(0, n as int) == s); }
    let first = sorted[0].timestamp;
    let last = sorted[n - 1].timestamp;
    proof {
        assert(derefs(sorted@)[0] == *sorted@[0]);
        assert(derefs(sorted@)[n - 1] == *sorted@[n - 1]);
        assert(time_sorted(derefs(group.events@)) == s);
        assert(s[0].timestamp <= s[n - 1].timestamp);
    }
    let span = span_minutes(first, last);
    let risk = velocity_risk(span, n);
    let text = interval_text(span, n - 1);
    VelocityAnalysis {
        account_id: group.account_id.clone(),
        transaction_count: n,
        total_amount: total.to_text(),
        time_span_minutes: span,
        avg_transaction_interval: text,
        risk_level: risk,
        transactions: ids,
    }
}

proof fn lemma_total_prefix_some(s: Seq<Event>, n: int)
    requires
        0 <= n <= s.len(),
        amount_total(s) is Some,
    ensures
        amount_total(s.subrange(0, n)) is Some,
    decreases s.len() - n,
{
    if n < s.len() {
        lemma_total_prefix_some(s, n + 1);
        assert(s.subrange(0, n + 1).drop_last() == s.subrange(0, n));
    } else {
        assert(s.subrange(0, n) == s);
    }
}


proof fn lemma_account_events_len(es: Seq<Event>, key: Seq<char>)
    ensures
        account_events(es, key).len() <= es.len(),
    decreases es.len(),
{
    if es.len() > 0 {
        lemma_account_events_len(es.drop_last(), key);
    }
}

/// The analyses stand for a list of accounts, one each, in order.
pub open spec fn analyses_are<F: Fn(i64, usize) -> String>(b: Seq<VelocityAnalysis>, keys: Seq<Seq<char>>,
    es: Seq<Event>, interval_text: F) -> bool
{
    &&& b.len() == keys.len()
    &&& forall|j: int| 0 <= j < b.len() ==> analysis_is(#[trigger] b[j], es, keys[j], interval_text)
}

/// The total of every account with two or more transactions adds up
/// without overflow.
pub open spec fn totals_fit(es: Seq<Event>) -> bool {
    forall|k: Seq<char>| account_events(es, k).len() >= 2 ==> (#[trigger] amount_total(account_sorted(es, k))) is Some
}

proof fn lemma_analyses_push<F: Fn(i64, usize) -> String>(b: Seq<VelocityAnalysis>, keys: Seq<Seq<char>>,
    es: Seq<Event>, f: F, a: VelocityAnalysis, key: Seq<char>)
    requires
        analyses_are(b, keys, es, f),
        analysis_is(a, es, key, f),
    ensures
        analyses_are(b.push(a), keys.push(key), es, f),
{
    assert forall|j: int| 0 <= j < b.push(a).len() implies analysis_is(#[trigger] b.push(a)[j], es, keys.push(key)[j], f) by {
        if j < b.len() {
            assert(b.push(a)[j] == b[j]);
            assert(keys.push(key)[j] == keys[j]);
        }
    }
}

proof fn lemma_analyses_concat<F: Fn(i64, usize) -> String>(b1: Seq<VelocityAnalysis>, k1: Seq<Seq<char>>,
    b2: Seq<VelocityAnalysis>, k2: Seq<Seq<char>>, es: Seq<Event>, f: F)
    requires
        analyses_are(b1, k1, es, f),
        analyses_are(b2, k2, es, f),
    ensures
        analyses_are(b1 + b2, k1 + k2, es, f),
{
    assert forall|j: int| 0 <= j < (b1 + b2).len() implies analysis_is(#[trigger] (b1 + b2)[j], es, (k1 + k2)[j], f) by {
        if j >= b1.len() {
            assert((b1 + b2)[j] == b2[j - b1.len()]);
            assert((k1 + k2)[j] == k2[j - b1.len()]);
        }
    }
}

impl VelocityReport {
    /// Analyzes the pace of each account with two or more transactions
    /// that carry an amount, riskiest first (accounts of equal risk in the
    /// order they first occur). `interval_text` puts the mean interval in
    /// words, given the span in minutes and the number of gaps.
    pub fn generate<F: Fn(i64, usize) -> String>(title: &str, events: &Vec<Event>, window_hours: u32,
        interval_text: F) -> (r: VelocityReport)
        requires
            events@.len() < 0x1_0000_0000_0000,
            totals_fit(events@),
            forall|x: i64, y: usize| interval_text.requires((x, y)),
        ensures
            r.title@ == title@,
            r.analysis_window_hours == window_hours,
            analyses_are(r.accounts@, report_keys(events@), events@, interval_text),
    {
        let mut report = VelocityReport::new(title, window_hours);
        let ghost es = events@;
        let ghost keys = account_keys(es);
        let groups = group_by_account(events);
        let mut critical: Vec<VelocityAnalysis> = Vec::new();
        let mut high: Vec<VelocityAnalysis> = Vec::new();
        let mut medium: Vec<VelocityAnalysis> = Vec::new();
        let mut low: Vec<VelocityAnalysis> = Vec::new();
        let mut k: usize = 0;
        proof { assert(keys.subrange(0, 0) =~= Seq::<Seq<char>>::empty()); }
        while k < groups.len()
            invariant
                es == events@,
                keys == account_keys(es),
                es.len() < 0x1_0000_0000_0000,
                totals_fit(es),
                forall|x: i64, y: usize| interval_text.requires((x, y)),
                groups@.len() == keys.len(),
                forall|q: int| 0 <= q < groups@.len() ==> {
                    &&& (#[trigger] groups@[q]).account_id@ == keys[q]
                    &&& derefs(groups@[q].events@) == account_events(es, keys[q])
                },
                k <= groups@.len(),
                analyses_are(critical@, ranked_keys(keys.subrange(0, k as int), es, 4), es, interval_text),
                analyses_are(high@, ranked_keys(keys.subrange(0, k as int), es, 3), es, interval_text),
                analyses_are(medium@, ranked_keys(keys.subrange(0, k as int), es, 2), es, interval_text),
                analyses_are(low@, ranked_keys(keys.subrange(0, k as int), es, 1), es, interval_text),
            decreases groups@.len() - k,
        {
            let g = &groups[k];
            let ghost key = keys[k as int];
            proof {
                assert(keys.subrange(0, k as int + 1).drop_last() == keys.subrange(0, k as int));
                assert(keys.subrange(0, k as int + 1).last() == key);
                assert(groups@[k as int].account_id@ == key);
                lemma_account_events_len(es, key);
                assert(derefs(g.events@).len() == g.events@.len());
            }
            if g.events.len() >= 2 {
                proof { assert(amount_total(account_sorted(es, key)) is Some); }
                let a = analyze(g, &interval_text, Ghost(es));
                proof {
                    assert(risk_rank(a.risk_level) == risk_rank(account_risk(es, key)));
                }
                match a.risk_level {
                    RiskLevel::Critical => {
                        proof { lemma_analyses_push(critical@, ranked_keys(keys.subrange(0, k as int), es, 4), es, interval_text, a, key); }
                        critical.push(a);
                    },
                    RiskLevel::High => {
                        proof { lemma_analyses_push(high@, ranked_keys(keys.subrange(0, k as int), es, 3), es, interval_text, a, key); }
                        high.push(a);
                    },
                    RiskLevel::Medium => {
                        proof { lemma_analyses_push(medium@, ranked_keys(keys.subrange(0, k as int), es, 2), es, interval_text, a, key); }
                        medium.push(a);
                    },
                    RiskLevel::Low => {
                        proof { lemma_analyses_push(low@, ranked_keys(keys.subrange(0, k as int), es, 1), es, interval_text, a, key); }
                        low.push(a);
                    },
                }
            }
            k = k + 1;
        }
        proof {
            assert(keys.subrange(0, groups@.len() as int) == keys);
            lemma_analyses_concat(critical@, ranked_keys(keys, es, 4), high@, ranked_keys(keys, es, 3), es, interval_text);
            lemma_analyses_concat(critical@ + high@, ranked_keys(keys, es, 4) + ranked_keys(keys, es, 3),
                medium@, ranked_keys(keys, es, 2), es, interval_text);
            lemma_analyses_concat(critical@ + high@ + medium@,
                ranked_keys(keys, es, 4) + ranked_keys(keys, es, 3) + ranked_keys(keys, es, 2),
                low@, ranked_keys(keys, es, 1), es, interval_text);
        }
        critical.append(&mut high);
        critical.append(&mut medium);
        critical.append(&mut low);
        report.accounts = critical;
        report
    }
}

/// Whether the amounts of events in a list add up, in order, without
/// overflow.
fn total_fits(sorted: &Vec<&Event>) -> (r: bool)
    ensures
        r == (amount_total(derefs(sorted@)) is Some),
{
    let ghost s = derefs(sorted@);
    let mut total = Amount::zero();
    let mut i: usize = 0;
    proof { assert(s.subrange(0, 0) =~= Seq::<Event>::empty()); }
    while i < sorted.len()
        invariant
            s == derefs(sorted@),
            i <= s.len(),
            Some(total.parts()) == amount_total(s.subrange(0, i as int)),
        decreases s.len() - i,
    {
        let e = sorted[i];
        proof {
            assert(s.subrange(0, i as int + 1).drop_last() == s.subrange(0, i as int));
            assert(s.subrange(0, i as int + 1).last() == *e);
        }
        if let Some(a) = &e.amount {
            match total.checked_add(a) {
                Some(t) => {
                    total = t;
                },
                None => {
                    proof {
                        if amount_total(s) is Some {
                            lemma_total_prefix_some(s, i as int + 1);
                        }
                    }
                    return false;
                },
            }
        }
        i = i + 1;
    }
    proof { assert(s.subrange(0, s.len() as int) == s); }
    true
}

/// Whether the total of every account with two or more transactions adds
/// up without overflow.
pub fn check_totals_fit(events: &Vec<Event>) -> (r: bool)
    ensures
        r == totals_fit(events@),
{
    let ghost es = events@;
    let ghost keys = account_keys(es);
    let groups = group_by_account(events);
    let mut k: usize = 0;
    while k < groups.len()
        invariant
            es == events@,
            keys == account_keys(es),
            groups@.len() == keys.len(),
            forall|q: int| 0 <= q < groups@.len() ==> {
                &&& (#[trigger] groups@[q]).account_id@ == keys[q]
                &&& derefs(groups@[q].events@) == account_events(es, keys[q])
            },
            k <= groups@.len(),
            forall|q: int| 0 <= q < k ==> account_events(es, #[trigger] keys[q]).len() >= 2
                ==> amount_total(account_sorted(es, keys[q])) is Some,
        decreases groups@.len() - k,
    {
        let g = &groups[k];
        proof {
            assert(groups@[k as int].account_id@ == keys[k as int]);
            assert(derefs(g.events@).len() == g.events@.len());
        }
        if g.events.len() >= 2 {
            let sorted = sort_by_time(&g.events);
            if !total_fits(&sorted) {
                proof {
                    assert(account_events(es, keys[k as int]).len() >= 2);
                    assert(amount_total(account_sorted(es, keys[k as int])) is None);
                }
                return false;
            }
        }
        k = k + 1;
    }
    proof {
        assert forall|key: Seq<char>| account_events(es, key).len() >= 2
            implies (#[trigger] amount_total(account_sorted(es, key))) is Some by {
            if keys.contains(key) {
                let q = choose|q: int| 0 <= q < keys.len() && keys[q] == key;
                assert(account_events(es, keys[q]).len() >= 2);
            } else {
                lemma_keys_absent(es, key);
            }
        }
    }
    true
}

impl VelocityReport {
    /// The velocity report, when every analyzed account's total adds up
    /// without overflow; none otherwise.
    pub fn try_generate<F: Fn(i64, usize) -> String>(title: &str, events: &Vec<Event>, window_hours: u32,
        interval_text: F) -> (r: Option<VelocityReport>)
        requires
            events@.len() < 0x1_0000_0000_0000,
            forall|x: i64, y: usize| interval_text.requires((x, y)),
        ensures
            r is Some <==> totals_fit(events@),
            r matches Some(rep) ==> {
                &&& rep.title@ == title@
                &&& rep.analysis_window_hours == window_hours
                &&& analyses_are(rep.accounts@, report_keys(events@), events@, interval_text)
            },
    {
        if check_totals_fit(events) {
            Some(Self::generate(title, events, window_hours, interval_text))
        } else {
            None
        }
    }
}

/// The cells of an account's row.
pub open spec fn velocity_cells(a: VelocityAnalysis) -> Seq<Seq<char>> {
    seq![
        a.account_id@,
        decimal_digits(a.transaction_count as nat),
        a.total_amount@,
        signed_digits(a.time_span_minutes as int) + " min"@,
        a.avg_transaction_interval@,
        risk_text(a.risk_level),
    ]
}

/// How many analyses are of high or critical risk.
pub open spec fn high_risk_count(s: Seq<VelocityAnalysis>) -> nat
    decreases s.len(),
{
    if s.len() == 0 {
        0
    } else {
        high_risk_count(s.drop_last()) + if risk_rank(s.last().risk_level) >= 3 { 1nat } else { 0nat }
    }
}

proof fn lemma_high_risk_count_le(s: Seq<VelocityAnalysis>)
    ensures
        high_risk_count(s) <= s.len(),
    decreases s.len(),
{
    if s.len() > 0 {
        lemma_high_risk_count_le(s.drop_last());
    }
}

impl ReportData for VelocityReport {
    open spec fn title_view(&self) -> Seq<char> {
        self.title@
    }

    open spec fn headers_view(&self) -> Seq<Seq<char>> {
        seq!["Account"@, "Tx Count"@, "Total Amount"@, "Time Span"@, "Avg Interval"@, "Risk Level"@]
    }

    open spec fn rows_view(&self) -> Seq<Seq<Seq<char>>> {
        self.accounts@.map_values(|a: VelocityAnalysis| velocity_cells(a))
    }

    open spec fn summary_view(&self) -> Seq<(Seq<char>, Seq<char>)> {
        seq![
            ("Analysis Window"@, decimal_digits(self.analysis_window_hours as nat) + " hours"@),
            ("Accounts Analyzed"@, decimal_digits(self.accounts@.len())),
            ("High Risk Accounts"@, decimal_digits(high_risk_count(self.accounts@))),
            ("Generated At"@, rfc3339_text(self.generated_at)),
        ]
    }

    fn title(&self) -> (r: &str) {
        self.title.as_str()
    }

    fn headers(&self) -> (r: Vec<String>) {
        let mut v: Vec<String> = Vec::new();
        v.push(String::from_str("Account"));
        v.push(String::from_str("Tx Count"));
        v.push(String::from_str("Total Amount"));
        v.push(String::from_str("Time Span"));
        v.push(String::from_str("Avg Interval"));
        v.push(String::from_str("Risk Level"));
        proof { assert(texts_of(v@) =~= self.headers_view()); }
        v
    }

    fn rows(&self) -> (r: Vec<Vec<String>>) {
        let mut rows: Vec<Vec<String>> = Vec::new();
        let mut i: usize = 0;
        while i < self.accounts.len()
            invariant
                i <= self.accounts@.len(),
                rows@.len() == i,
                forall|k: int| 0 <= k < i ==> texts_of(#[trigger] rows@[k]@) == velocity_cells(self.accounts@[k]),
            decreases self.accounts@.len() - i,
        {
            let a = &self.accounts[i];
            let mut count = String::new();
            push_decimal(&mut count, a.transaction_count as u64);
            proof { assert(count@ =~= decimal_digits(a.transaction_count as nat)); }
            let mut span = String::new();
            push_signed(&mut span, a.time_span_minutes);
            span.append(" min");
            proof { assert(span@ =~= signed_digits(a.time_span_minutes as int) + " min"@); }
            let mut row: Vec<String> = Vec::new();
            row.push(a.account_id.clone());
            row.push(count);
            row.push(a.total_amount.clone());
            row.push(span);
            row.push(a.avg_transaction_interval.clone());
            row.push(String::from_str(a.risk_level.as_str()));
            proof { assert(texts_of(row@) =~= velocity_cells(*a)); }
            rows.push(row);
            i = i + 1;
        }
        proof { assert(table_texts(rows@) =~= self.rows_view()); }
        rows
    }

    fn summary(&self) -> (r: Vec<(String, String)>) {
        let mut window = String::new();
        push_decimal(&mut window, self.analysis_window_hours as u64);
        window.append(" hours");
        proof { assert(window@ =~= decimal_digits(self.analysis_window_hours as nat) + " hours"@); }
        let mut analyzed = String::new();
        push_decimal(&mut analyzed, self.accounts.len() as u64);
        proof { assert(analyzed@ =~= decimal_digits(self.accounts@.len())); }
        let mut high: usize = 0;
        let mut i: usize = 0;
        proof { assert(self.accounts@.subrange(0, 0) =~= Seq::<VelocityAnalysis>::empty()); }
        while i < self.accounts.len()
            invariant
                i <= self.accounts@.len(),
                high == high_risk_count(self.accounts@.subrange(0, i as int)),
            decreases self.accounts@.len() - i,
        {
            proof {
                assert(self.accounts@.subrange(0, i as int + 1).drop_last() == self.accounts@.subrange(0, i as int));
                lemma_high_risk_count_le(self.accounts@.subrange(0, i as int));
            }
            match self.accounts[i].risk_level {
                RiskLevel::High | RiskLevel::Critical => { high = high + 1; },
                _ => {},
            }
            i = i + 1;
        }
        proof { assert(self.accounts@.subrange(0, self.accounts@.len() as int) == self.accounts@); }
        let mut high_text = String::new();
        push_decimal(&mut high_text, high as u64);
        proof { assert(high_text@ =~= decimal_digits(high_risk_count(self.accounts@))); }
        let mut v: Vec<(String, String)> = Vec::new();
        v.push((String::from_str("Analysis Window"), window));
        v.push((String::from_str("Accounts Analyzed"), analyzed));
        v.push((String::from_str("High Risk Accounts"), high_text));
        v.push((String::from_str("Generated At"), format_rfc3339(self.generated_at)));
        proof { assert(pair_texts(v@) =~= self.summary_view()); }
        v
    }
}

proof fn lemma_ranked_keys(keys: Seq<Seq<char>>, es: Seq<Event>, rank: int)
    ensures
        forall|i: int| 0 <= i < ranked_keys(keys, es, rank).len() ==> {
            &&& keys.contains(#[trigger] ranked_keys(keys, es, rank)[i])
            &&& risk_rank(account_risk(es, ranked_keys(keys, es, rank)[i])) == rank
            &&& account_events(es, ranked_keys(keys, es, rank)[i]).len() >= 2
        },
        (forall|i: int, j: int| 0 <= i < j < keys.len() ==> keys[i] != keys[j]) ==>
            (forall|i: int, j: int| 0 <= i < j < ranked_keys(keys, es, rank).len()
                ==> ranked_keys(keys, es, rank)[i] != ranked_keys(keys, es, rank)[j]),
        forall|k: Seq<char>| keys.contains(k) && account_events(es, k).len() >= 2
            && risk_rank(account_risk(es, k)) == rank ==> #[trigger] ranked_keys(keys, es, rank).contains(k),
    decreases keys.len(),
{
    if keys.len() > 0 {
        let init = keys.drop_last();
        let rest = ranked_keys(init, es, rank);
        let last = keys.last();
        lemma_ranked_keys(init, es, rank);
        let r = ranked_keys(keys, es, rank);
        assert forall|i: int| 0 <= i < r.len() implies {
            &&& keys.contains(#[trigger] r[i])
            &&& risk_rank(account_risk(es, r[i])) == rank
            &&& account_events(es, r[i]).len() >= 2
        } by {
            if i < rest.len() {
                assert(r[i] == rest[i]);
                let q = choose|q: int| 0 <= q < init.len() && init[q] == rest[i];
                assert(keys[q] == init[q]);
            } else {
                assert(r[i] == last);
                assert(keys[keys.len() - 1] == last);
            }
        }
        if forall|i: int, j: int| 0 <= i < j < keys.len() ==> keys[i] != keys[j] {
            assert forall|i: int, j: int| 0 <= i < j < init.len() implies init[i] != init[j] by {
                assert(init[i] == keys[i] && init[j] == keys[j]);
            }
            assert forall|i: int, j: int| 0 <= i < j < r.len() implies r[i] != r[j] by {
                if j < rest.len() {
                    assert(r[i] == rest[i] && r[j] == rest[j]);
                } else {
                    assert(r[i] == rest[i]);
                    assert(r[j] == last);
                    let q = choose|q: int| 0 <= q < init.len() && init[q] == rest[i];
                    assert(keys[q] == init[q]);
                    assert(keys[keys.len() - 1] == last);
                }
            }
        }
        assert forall|k: Seq<char>| keys.contains(k) && account_events(es, k).len() >= 2
            && risk_rank(account_risk(es, k)) == rank implies #[trigger] r.contains(k) by {
            let q = choose|q: int| 0 <= q < keys.len() && keys[q] == k;
            if q < keys.len() - 1 {
                assert(init[q] == k);
                assert(rest.contains(k));
                let w = choose|w: int| 0 <= w < rest.len() && rest[w] == k;
                assert(r[w] == rest[w]);
            } else {
                assert(r[r.len() - 1] == k);
            }
        }
    }
}

/// The velocity report lists each account with two or more transactions
/// once, and no other, riskiest first.
pub proof fn lemma_report_keys(es: Seq<Event>)
    ensures
        forall|i: int, j: int| 0 <= i < j < report_keys(es).len() ==>
            risk_rank(account_risk(es, report_keys(es)[i])) >= risk_rank(account_risk(es, report_keys(es)[j])),
        forall|i: int, j: int| 0 <= i < j < report_keys(es).len() ==> report_keys(es)[i] != report_keys(es)[j],
        forall|i: int| 0 <= i < report_keys(es).len() ==> account_events(es, #[trigger] report_keys(es)[i]).len() >= 2,
        forall|k: Seq<char>| account_events(es, k).len() >= 2 ==> #[trigger] report_keys(es).contains(k),
{
    let keys = account_keys(es);
    lemma_keys_distinct(es);
    let a = ranked_keys(keys, es, 4);
    let b = ranked_keys(keys, es, 3);
    let c = ranked_keys(keys, es, 2);
    let d = ranked_keys(keys, es, 1);
    lemma_ranked_keys(keys, es, 4);
    lemma_ranked_keys(keys, es, 3);
    lemma_ranked_keys(keys, es, 2);
    lemma_ranked_keys(keys, es, 1);
    let all = report_keys(es);
    assert(all == a + b + c + d);
    // The rank of each position, and that a position within a block holds
    // that block's element.
    assert forall|i: int| 0 <= i < all.len() implies {
        &&& account_events(es, #[trigger] all[i]).len() >= 2
        &&& risk_rank(account_risk(es, all[i])) == (if i < a.len() { 4int } else if i < a.len() + b.len() { 3int }
            else if i < a.len() + b.len() + c.len() { 2int } else { 1int })
    } by {
        if i < a.len() {
            assert(all[i] == a[i]);
        } else if i < a.len() + b.len() {
            assert(all[i] == b[i - a.len()]);
        } else if i < a.len() + b.len() + c.len() {
            assert(all[i] == c[i - a.len() - b.len()]);
        } else {
            assert(all[i] == d[i - a.len() - b.len() - c.len()]);
        }
    }
    assert forall|i: int, j: int| 0 <= i < j < all.len() implies
        risk_rank(account_risk(es, all[i])) >= risk_rank(account_risk(es, all[j])) by {
        assert(account_events(es, all[i]).len() >= 2);
        assert(account_events(es, all[j]).len() >= 2);
    }
    assert forall|i: int, j: int| 0 <= i < j < all.len() implies all[i] != all[j] by {
        assert(account_events(es, all[i]).len() >= 2);
        assert(account_events(es, all[j]).len() >= 2);
        if risk_rank(account_risk(es, all[i])) == risk_rank(account_risk(es, all[j])) {
            if j < a.len() {
                assert(all[i] == a[i] && all[j] == a[j]);
            } else if j < a.len() + b.len() {
                assert(all[i] == b[i - a.len()] && all[j] == b[j - a.len()]);
            } else if j < a.len() + b.len() + c.len() {
                assert(all[i] == c[i - a.len() - b.len()] && all[j] == c[j - a.len() - b.len()]);
            } else {
                assert(all[i] == d[i - a.len() - b.len() - c.len()] && all[j] == d[j - a.len() - b.len() - c.len()]);
            }
        }
    }
    assert forall|k: Seq<char>| account_events(es, k).len() >= 2 implies #[trigger] all.contains(k) by {
        if !keys.contains(k) {
            lemma_keys_absent(es, k);
        }
        let rk = risk_rank(account_risk(es, k));
        if rk == 4 {
            assert(a.contains(k));
            let w = choose|w: int| 0 <= w < a.len() && a[w] == k;
            assert(all[w] == k);
        } else if rk == 3 {
            assert(b.contains(k));
            let w = choose|w: int| 0 <= w < b.len() && b[w] == k;
            assert(all[a.len() + w] == k);
        } else if rk == 2 {
            assert(c.contains(k));
            let w = choose|w: int| 0 <= w < c.len() && c[w] == k;
            assert(all[a.len() + b.len() + w] == k);
        } else {
            assert(d.contains(k));
            let w = choose|w: int| 0 <= w < d.len() && d[w] == k;
            assert(all[a.len() + b.len() + c.len() + w] == k);
        }
    }
}

/// Sorting by time reorders: the result holds the same events, as many
/// times each, with times never decreasing.
pub proof fn lemma_time_sorted(s: Seq<Event>)
    ensures
        time_sorted(s).len() == s.len(),
        time_sorted(s).to_multiset() == s.to_multiset(),
        forall|i: int, j: int| 0 <= i < j < time_sorted(s).len() ==>
            time_sorted(s)[i].timestamp <= time_sorted(s)[j].timestamp,
    decreases s.len(),
{
    lemma_time_sorted_len(s);
    lemma_time_sorted_sorted(s);
    if s.len() > 0 {
        let init = s.drop_last();
        lemma_time_sorted(init);
        let sorted = time_sorted(init);
        lemma_first_later_bounds(sorted, s.last().timestamp);
        vstd::seq_lib::to_multiset_insert(sorted, first_later(sorted, s.last().timestamp), s.last());
        vstd::seq_lib::to_multiset_build(init, s.last());
        assert(init.push(s.last()) =~= s);
        assert(time_sorted(s) == sorted.insert(first_later(sorted, s.last().timestamp), s.last()));
        assert(time_sorted(s).to_multiset() == sorted.to_multiset().insert(s.last()));
        assert(s.to_multiset() == init.to_multiset().insert(s.last()));
    } else {
        assert(s =~= Seq::<Event>::empty());
        assert(time_sorted(s) =~= s);
    }
}

} // verus!
