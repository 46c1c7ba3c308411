//! The anti-money-laundering compliance report: every flag raised over a
//! list of events, the event it was raised on, and how risky it is.
use vstd::prelude::*;
use vstd::string::StringExecFns;
use crate::bank::event::{aml_flag_text, event_type_text, opt_view, AmlFlag, Event};
use crate::bank::filter::total_flags;
use crate::clock::{lemma_plain_patterns, format_rfc3339, format_time, now_millis, rfc3339_text, time_text};
use crate::decimal::decimal_text;
use crate::text::{count_text, decimal_digits};
use super::exporters::{pair_texts, texts_of, TableReport};

verus! {

/// How risky a flag is.
#[derive(Debug, Clone, Copy, PartialEq, Eq, Structural)]
pub enum RiskLevel {
    Low,
    Medium,
    High,
    Critical,
}

/// The name of a risk level.
pub open spec fn risk_text(r: RiskLevel) -> Seq<char> {
    match r {
        RiskLevel::Low => "Low"@,
        RiskLevel::Medium => "Medium"@,
        RiskLevel::High => "High"@,
        RiskLevel::Critical => "Critical"@,
    }
}

/// The risk of a flag.
pub open spec fn flag_risk(f: AmlFlag) -> RiskLevel {
    match f {
        AmlFlag::LargeAmount => RiskLevel::High,
        AmlFlag::NearThreshold => RiskLevel::Medium,
        AmlFlag::UnusualPattern => RiskLevel::High,
        AmlFlag::HighRiskCountry => RiskLevel::Critical,
        AmlFlag::CrossBorder => RiskLevel::Medium,
        AmlFlag::NewAccountLargeTx => RiskLevel::High,
        AmlFlag::RapidWithdrawal => RiskLevel::High,
    }
}

/// The rank of a risk level: Critical 4, High 3, Medium 2, Low 1.
pub open spec fn risk_rank(r: RiskLevel) -> int {
    match r {
        RiskLevel::Critical => 4,
        RiskLevel::High => 3,
        RiskLevel::Medium => 2,
        RiskLevel::Low => 1,
    }
}

impl RiskLevel {
    /// The level's name.
    pub fn as_str(&self) -> (r: &'static str)
        ensures
            r@ == risk_text(*self),
    {
        proof {
            reveal_strlit("Low");
            reveal_strlit("Medium");
            reveal_strlit("High");
            reveal_strlit("Critical");
        }
        match self {
            RiskLevel::Low => "Low",
            RiskLevel::Medium => "Medium",
            RiskLevel::High => "High",
            RiskLevel::Critical => "Critical",
        }
    }

    /// The risk of a flag: a high-risk country is critical; a large amount,
    /// an unusual pattern, a new account's large transaction and a rapid
    /// withdrawal are high; the rest medium.
    pub fn from_flag(flag: &AmlFlag) -> (r: RiskLevel)
        ensures
            r == flag_risk(*flag),
    {
        match flag {
            AmlFlag::LargeAmount => RiskLevel::High,
            AmlFlag::NearThreshold => RiskLevel::Medium,
            AmlFlag::UnusualPattern => RiskLevel::High,
            AmlFlag::HighRiskCountry => RiskLevel::Critical,
            AmlFlag::CrossBorder => RiskLevel::Medium,
            AmlFlag::NewAccountLargeTx => RiskLevel::High,
            AmlFlag::RapidWithdrawal => RiskLevel::High,
        }
    }
}

/// One flag raised on one event, as the report lists it.
#[derive(Debug)]
pub struct FlaggedEvent {
    pub event_id: String,
    /// When the event happened, in milliseconds since the Unix epoch
    pub timestamp: i64,
    pub event_type: String,
    pub account_id: String,
    /// The amount as `Decimal` prints it; empty when there is none
    pub amount: String,
    /// The currency; empty when there is none
    pub currency: String,
    pub flag: AmlFlag,
    pub risk_level: RiskLevel,
    /// The description; empty when there is none
    pub description: String,
}

/// The flagged events of one flag.
#[derive(Debug)]
pub struct FlagGroup {
    pub flag: AmlFlag,
    pub events: Vec<FlaggedEvent>,
}

/// The compliance report.
#[derive(Debug)]
pub struct AmlReport {
    pub title: String,
    /// When it was made, in milliseconds since the Unix epoch
    pub generated_at: i64,
    /// The number of events analyzed
    pub total_events: usize,
    /// The number of flags raised (an event with two flags counts twice)
    pub flagged_events: usize,
    pub large_amount_count: usize,
    pub near_threshold_count: usize,
    pub unusual_pattern_count: usize,
    pub high_risk_country_count: usize,
    /// The flagged events of each flag, in the order the flags first occur
    pub events_by_flag: Vec<FlagGroup>,
}

/// An optional text, empty when absent.
pub open spec fn text_or_empty(o: Option<String>) -> Seq<char> {
    match o {
        Some(s) => s@,
        None => Seq::empty(),
    }
}

/// The listing of a flag raised on an event.
pub open spec fn flagged_entry_is(f: FlaggedEvent, e: Event, flag: AmlFlag) -> bool {
    &&& f.event_id@ == e.event_id@
    &&& f.timestamp == e.timestamp
    &&& f.event_type@ == event_type_text(e.event_type)
    &&& f.account_id@ == e.account_id@
    &&& f.amount@ == (match e.amount { Some(a) => decimal_text(a.parts()), None => Seq::empty() })
    &&& f.currency@ == text_or_empty(e.currency)
    &&& f.flag == flag
    &&& f.risk_level == flag_risk(flag)
    &&& f.description@ == text_or_empty(e.description)
}

/// The (event, flag) pairs of a list of events: each flag of each event,
/// in order.
pub open spec fn raised(events: Seq<Event>) -> Seq<(Event, AmlFlag)>
    decreases events.len(),
{
    if events.len() == 0 {
        Seq::empty()
    } else {
        raised(events.drop_last())
            + events.last().aml_flags@.map_values(|f: AmlFlag| (events.last(), f))
    }
}

/// The number of pairs with a flag.
pub open spec fn count_flag(pairs: Seq<(Event, AmlFlag)>, f: AmlFlag) -> nat
    decreases pairs.len(),
{
    if pairs.len() == 0 {
        0
    } else {
        count_flag(pairs.drop_last(), f) + if pairs.last().1 == f { 1nat } else { 0nat }
    }
}

/// The pairs of one flag, in order.
pub open spec fn pairs_of(pairs: Seq<(Event, AmlFlag)>, f: AmlFlag) -> Seq<Event>
    decreases pairs.len(),
{
    if pairs.len() == 0 {
        Seq::empty()
    } else {
        let rest = pairs_of(pairs.drop_last(), f);
        if pairs.last().1 == f { rest.push(pairs.last().0) } else { rest }
    }
}

/// The flags of the pairs, each once, in the order they first occur.
pub open spec fn first_flags(pairs: Seq<(Event, AmlFlag)>) -> Seq<AmlFlag>
    decreases pairs.len(),
{
    if pairs.len() == 0 {
        Seq::empty()
    } else {
        let before = first_flags(pairs.drop_last());
        if before.contains(pairs.last().1) { before } else { before.push(pairs.last().1) }
    }
}

/// A group lists the events of its flag.
pub open spec fn group_lists(g: FlagGroup, events: Seq<Event>) -> bool {
    &&& g.events@.len() == events.len()
    &&& forall|i: int| 0 <= i < events.len() ==> #[trigger] flagged_entry_is(g.events@[i], events[i], g.flag)
}

impl AmlReport {
    /// What the report of `events` holds: the number of events, the number
    /// of flags raised, the counts of four flags, and for each flag raised,
    /// in the order flags first occur, an entry per time it was raised.
    pub open spec fn reports(&self, events: Seq<Event>) -> bool {
        let pairs = raised(events);
        &&& self.total_events == events.len()
        &&& self.flagged_events == pairs.len()
        &&& self.large_amount_count == count_flag(pairs, AmlFlag::LargeAmount)
        &&& self.near_threshold_count == count_flag(pairs, AmlFlag::NearThreshold)
        &&& self.unusual_pattern_count == count_flag(pairs, AmlFlag::UnusualPattern)
        &&& self.high_risk_country_count == count_flag(pairs, AmlFlag::HighRiskCountry)
        &&& self.events_by_flag@.len() == first_flags(pairs).len()
        &&& forall|k: int| 0 <= k < self.events_by_flag@.len() ==> {
            &&& (#[trigger] self.events_by_flag@[k]).flag == first_flags(pairs)[k]
            &&& group_lists(self.events_by_flag@[k], pairs_of(pairs, first_flags(pairs)[k]))
        }
    }

    /// An empty report, made now.
    pub fn new(title: &str) -> (r: AmlReport)
        ensures
            r.title@ == title@,
            r.reports(Seq::empty()),
    {
        AmlReport {
            title: title.to_string(),
            generated_at: now_millis(),
            total_events: 0,
            flagged_events: 0,
            large_amount_count: 0,
            near_threshold_count: 0,
            unusual_pattern_count: 0,
            high_risk_country_count: 0,
            events_by_flag: Vec::new(),
        }
    }
}

/// The listing of a flag raised on an event.
fn flagged_entry(e: &Event, flag: AmlFlag) -> (r: FlaggedEvent)
    ensures
        flagged_entry_is(r, *e, flag),
{
    FlaggedEvent {
        event_id: e.event_id.clone(),
        timestamp: e.timestamp,
        event_type: e.event_type.as_str().to_string(),
        account_id: e.account_id.clone(),
        amount: match &e.amount {
            Some(a) => a.to_text(),
            None => String::new(),
        },
        currency: match &e.currency {
            Some(c) => c.clone(),
            None => String::new(),
        },
        flag,
        risk_level: RiskLevel::from_flag(&flag),
        description: match &e.description {
            Some(d) => d.clone(),
            None => String::new(),
        },
    }
}


proof fn lemma_pairs_absent(pairs: Seq<(Event, AmlFlag)>, f: AmlFlag)
    requires
        !first_flags(pairs).contains(f),
    ensures
        pairs_of(pairs, f).len() == 0,
    decreases pairs.len(),
{
    if pairs.len() > 0 {
        let before = first_flags(pairs.drop_last());
        if before.contains(f) {
            let i = choose|i: int| 0 <= i < before.len() && before[i] == f;
            if !before.contains(pairs.last().1) {
                assert(before.push(pairs.last().1)[i] == f);
            }
        }
        lemma_pairs_absent(pairs.drop_last(), f);
        if pairs.last().1 == f {
            if before.contains(f) {
            } else {
                assert(before.push(f)[before.len() as int] == f);
            }
        }
    }
}

/// No flag occurs twice.
pub open spec fn no_repeats(s: Seq<AmlFlag>) -> bool {
    forall|i: int, j: int| 0 <= i < j < s.len() ==> s[i] != s[j]
}

proof fn lemma_first_flags_distinct(pairs: Seq<(Event, AmlFlag)>)
    ensures
        no_repeats(first_flags(pairs)),
    decreases pairs.len(),
{
    if pairs.len() > 0 {
        lemma_first_flags_distinct(pairs.drop_last());
        let before = first_flags(pairs.drop_last());
        if !before.contains(pairs.last().1) {
            let t = before.push(pairs.last().1);
            assert forall|i: int, j: int| 0 <= i < j < t.len() implies t[i] != t[j] by {
                if j == before.len() {
                    assert(t[i] == before[i]);
                }
            }
        }
    }
}

proof fn lemma_total_prefix(es: Seq<Event>, n: int)
    requires
        0 <= n <= es.len(),
    ensures
        total_flags(es.subrange(0, n)) <= total_flags(es),
        raised(es.subrange(0, n)).len() == total_flags(es.subrange(0, n)),
    decreases es.len() - n,
{
    lemma_raised_len(es.subrange(0, n));
    if n < es.len() {
        lemma_total_prefix(es, n + 1);
        assert(es.subrange(0, n + 1).drop_last() == es.subrange(0, n));
    } else {
        assert(es.subrange(0, n) == es);
    }
}

proof fn lemma_raised_len(es: Seq<Event>)
    ensures
        raised(es).len() == total_flags(es),
    decreases es.len(),
{
    if es.len() > 0 {
        lemma_raised_len(es.drop_last());
    }
}

proof fn lemma_count_le(pairs: Seq<(Event, AmlFlag)>, f: AmlFlag)
    ensures
        count_flag(pairs, f) <= pairs.len(),
    decreases pairs.len(),
{
    if pairs.len() > 0 {
        lemma_count_le(pairs.drop_last(), f);
    }
}

/// Where a flag's group stands.
fn find_group(groups: &Vec<FlagGroup>, f: AmlFlag) -> (r: Option<usize>)
    ensures
        match r {
            Some(k) => k < groups@.len() && groups@[k as int].flag == f,
            None => forall|k: int| 0 <= k < groups@.len() ==> groups@[k].flag != f,
        },
{
    let mut i: usize = 0;
    while i < groups.len()
        invariant
            i <= groups@.len(),
            forall|k: int| 0 <= k < i ==> groups@[k].flag != f,
        decreases groups@.len() - i,
    {
        if groups[i].flag == f {
            return Some(i);
        }
        i = i + 1;
    }
    None
}

impl AmlReport {
    /// The report of a list of events, made now.
    pub fn generate(title: &str, events: &Vec<Event>) -> (r: AmlReport)
        requires
            total_flags(events@) <= usize::MAX,
        ensures
            r.title@ == title@,
            r.reports(events@),
    {
        let ghost es = events@;
        let mut report = AmlReport::new(title);
        report.total_events = events.len();
        let mut i: usize = 0;
        proof {
            assert(es.subrange(0, 0) =~= Seq::<Event>::empty());
        }
        while i < events.len()
            invariant
                es == events@,
                i <= es.len(),
                total_flags(es) <= usize::MAX,
                report.title@ == title@,
                report.total_events == es.len(),
                ({
                    let pairs = raised(es.subrange(0, i as int));
                    &&& report.flagged_events == pairs.len()
                    &&& report.large_amount_count == count_flag(pairs, AmlFlag::LargeAmount)
                    &&& report.near_threshold_count == count_flag(pairs, AmlFlag::NearThreshold)
                    &&& report.unusual_pattern_count == count_flag(pairs, AmlFlag::UnusualPattern)
                    &&& report.high_risk_country_count == count_flag(pairs, AmlFlag::HighRiskCountry)
                    &&& report.events_by_flag@.len() == first_flags(pairs).len()
                    &&& forall|k: int| 0 <= k < report.events_by_flag@.len() ==> {
                        &&& (#[trigger] report.events_by_flag@[k]).flag == first_flags(pairs)[k]
                        &&& group_lists(report.events_by_flag@[k], pairs_of(pairs, first_flags(pairs)[k]))
                    }
                }),
            decreases es.len() - i,
        {
            let e = &events[i];
            let ghost base = raised(es.subrange(0, i as int));
            let ghost fs = e.aml_flags@;
            proof {
                lemma_total_prefix(es, i as int + 1);
                assert(es.subrange(0, i as int + 1).drop_last() == es.subrange(0, i as int));
                assert(es.subrange(0, i as int + 1).last() == *e);
                assert(fs.subrange(0, 0).map_values(|f: AmlFlag| (*e, f)) =~= Seq::<(Event, AmlFlag)>::empty());
                assert(base + fs.subrange(0, 0).map_values(|f: AmlFlag| (*e, f)) =~= base);
            }
            let mut j: usize = 0;
            while j < e.aml_flags.len()
                invariant
                    es == events@,
                    i < es.len(),
                    *e == es[i as int],
                    fs == e.aml_flags@,
                    base == raised(es.subrange(0, i as int)),
                    j <= fs.len(),
                    base.len() + fs.len() <= usize::MAX,
                    report.title@ == title@,
                    report.total_events == es.len(),
                    ({
                        let pairs = base + fs.subrange(0, j as int).map_values(|f: AmlFlag| (*e, f));
                        &&& report.flagged_events == pairs.len()
                        &&& report.large_amount_count == count_flag(pairs, AmlFlag::LargeAmount)
                        &&& report.near_threshold_count == count_flag(pairs, AmlFlag::NearThreshold)
                        &&& report.unusual_pattern_count == count_flag(pairs, AmlFlag::UnusualPattern)
                        &&& report.high_risk_country_count == count_flag(pairs, AmlFlag::HighRiskCountry)
                        &&& report.events_by_flag@.len() == first_flags(pairs).len()
                        &&& forall|k: int| 0 <= k < report.events_by_flag@.len() ==> {
                            &&& (#[trigger] report.events_by_flag@[k]).flag == first_flags(pairs)[k]
                            &&& group_lists(report.events_by_flag@[k], pairs_of(pairs, first_flags(pairs)[k]))
                        }
                    }),
                decreases fs.len() - j,
            {
                let f = e.aml_flags[j];
                let ghost p = base + fs.subrange(0, j as int).map_values(|g: AmlFlag| (*e, g));
                let ghost p1 = base + fs.subrange(0, j as int + 1).map_values(|g: AmlFlag| (*e, g));
                proof {
                    assert(p1 =~= p.push((*e, f)));
                    assert(p1.drop_last() == p);
                    assert(p1.last() == (*e, f));
                    lemma_count_le(p, AmlFlag::LargeAmount);
                    lemma_count_le(p, AmlFlag::NearThreshold);
                    lemma_count_le(p, AmlFlag::UnusualPattern);
                    lemma_count_le(p, AmlFlag::HighRiskCountry);
                    lemma_first_flags_distinct(p);
                }
                report.flagged_events = report.flagged_events + 1;
                match f {
                    AmlFlag::LargeAmount => { report.large_amount_count = report.large_amount_count + 1; },
                    AmlFlag::NearThreshold => { report.near_threshold_count = report.near_threshold_count + 1; },
                    AmlFlag::UnusualPattern => { report.unusual_pattern_count = report.unusual_pattern_count + 1; },
                    AmlFlag::HighRiskCountry => {
                        report.high_risk_country_count = report.high_risk_country_count + 1;
                    },
                    _ => {},
                }
                let entry = flagged_entry(e, f);
                let k = match find_group(&report.events_by_flag, f) {
                    Some(k) => k,
                    None => {
                        proof {
                            if first_flags(p).contains(f) {
                                let q = choose|q: int| 0 <= q < first_flags(p).len() && first_flags(p)[q] == f;
                                assert(report.events_by_flag@[q].flag == f);
                            }
                            lemma_pairs_absent(p, f);
                        }
                        report.events_by_flag.push(FlagGroup { flag: f, events: Vec::new() });
                        report.events_by_flag.len() - 1
                    },
                };
                let ghost mid = report.events_by_flag@;
                report.events_by_flag[k].events.push(entry);
                proof {
                    let ff = first_flags(p1);
                    assert forall|q: int| 0 <= q < report.events_by_flag@.len() implies {
                        &&& (#[trigger] report.events_by_flag@[q]).flag == ff[q]
                        &&& group_lists(report.events_by_flag@[q], pairs_of(p1, ff[q]))
                    } by {
                        if q == k as int {
                            let evs = pairs_of(p1, f);
                            assert(evs == pairs_of(p, f).push(*e));
                            assert forall|t: int| 0 <= t < evs.len() implies
                                #[trigger] flagged_entry_is(report.events_by_flag@[q].events@[t], evs[t], f) by {
                                if t < evs.len() - 1 {
                                    assert(report.events_by_flag@[q].events@[t] == mid[q].events@[t]);
                                }
                            }
                        } else {
                            assert(report.events_by_flag@[q] == mid[q]);
                            if q < first_flags(p).len() {
                                assert(first_flags(p)[q] != f) by {
                                    if first_flags(p).contains(f) {
                                        assert(mid[k as int].flag == f);
                                    }
                                }
                            }
                        }
                    }
                }
                j = j + 1;
            }
            proof {
                assert(fs.subrange(0, fs.len() as int) == fs);
            }
            i = i + 1;
        }
        proof {
            assert(es.subrange(0, es.len() as int) == es);
        }
        report
    }
}


/// The entries of the groups, group after group.
pub open spec fn all_entries(groups: Seq<FlagGroup>) -> Seq<FlaggedEvent>
    decreases groups.len(),
{
    if groups.len() == 0 {
        Seq::empty()
    } else {
        all_entries(groups.drop_last()) + groups.last().events@
    }
}

/// The entries of a rank, in order.
pub open spec fn entries_of_rank(s: Seq<FlaggedEvent>, rank: int) -> Seq<FlaggedEvent>
    decreases s.len(),
{
    if s.len() == 0 {
        Seq::empty()
    } else {
        let rest = entries_of_rank(s.drop_last(), rank);
        if risk_rank(s.last().risk_level) == rank { rest.push(s.last()) } else { rest }
    }
}

/// The entries sorted by risk, highest first, keeping their order within a
/// level (a stable sort).
pub open spec fn by_risk(s: Seq<FlaggedEvent>) -> Seq<FlaggedEvent> {
    entries_of_rank(s, 4) + entries_of_rank(s, 3) + entries_of_rank(s, 2) + entries_of_rank(s, 1)
}

/// The whole part of the risk score, from 0 to 100: ten times the weighted
/// flag count (6 per large amount, 4 per near threshold, 7 per unusual
/// pattern, 10 per high-risk country) over the number of events.
pub open spec fn risk_score_floor(total: nat, large: nat, near: nat, unusual: nat, high: nat) -> nat {
    if total == 0 {
        0
    } else {
        let s = (10 * (6 * large + 4 * near + 7 * unusual + 10 * high)) / total;
        if s > 100 { 100 } else { s }
    }
}

/// The class of a score's whole part: up to 25 low, up to 50 medium, up to
/// 75 high, above critical.
pub open spec fn score_class(s: nat) -> RiskLevel {
    if s <= 25 {
        RiskLevel::Low
    } else if s <= 50 {
        RiskLevel::Medium
    } else if s <= 75 {
        RiskLevel::High
    } else {
        RiskLevel::Critical
    }
}

impl AmlReport {
    /// Appends the entries of a rank, in order.
    fn push_rank<'a>(&'a self, out: &mut Vec<&'a FlaggedEvent>, rank: u8)
        ensures
            final(out)@.len() == old(out)@.len() + entries_of_rank(all_entries(self.events_by_flag@), rank as int).len(),
            forall|i: int| 0 <= i < old(out)@.len() ==> final(out)@[i] == old(out)@[i],
            forall|i: int| 0 <= i < entries_of_rank(all_entries(self.events_by_flag@), rank as int).len() ==>
                *final(out)@[old(out)@.len() + i] == entries_of_rank(all_entries(self.events_by_flag@), rank as int)[i],
    {
        let ghost start = out@;
        let ghost gs = self.events_by_flag@;
        let mut g: usize = 0;
        while g < self.events_by_flag.len()
            invariant
                gs == self.events_by_flag@,
                g <= gs.len(),
                out@.len() == start.len() + entries_of_rank(all_entries(gs.subrange(0, g as int)), rank as int).len(),
                forall|i: int| 0 <= i < start.len() ==> out@[i] == start[i],
                forall|i: int| 0 <= i < entries_of_rank(all_entries(gs.subrange(0, g as int)), rank as int).len() ==>
                    *out@[start.len() + i] == entries_of_rank(all_entries(gs.subrange(0, g as int)), rank as int)[i],
            decreases gs.len() - g,
        {
            let group = &self.events_by_flag[g];
            let ghost done = all_entries(gs.subrange(0, g as int));
            proof {
                assert(gs.subrange(0, g as int + 1).drop_last() == gs.subrange(0, g as int));
                assert(gs.subrange(0, g as int + 1).last() == *group);
                assert(done + group.events@.subrange(0, 0) =~= done);
            }
            let mut j: usize = 0;
            while j < group.events.len()
                invariant
                    g < gs.len(),
                    *group == gs[g as int],
                    done == all_entries(gs.subrange(0, g as int)),
                    j <= group.events@.len(),
                    out@.len() == start.len() + entries_of_rank(done + group.events@.subrange(0, j as int), rank as int).len(),
                    forall|i: int| 0 <= i < start.len() ==> out@[i] == start[i],
                    forall|i: int| 0 <= i < entries_of_rank(done + group.events@.subrange(0, j as int), rank as int).len() ==>
                        *out@[start.len() + i] == entries_of_rank(done + group.events@.subrange(0, j as int), rank as int)[i],
                decreases group.events@.len() - j,
            {
                let entry = &group.events[j];
                proof {
                    let a = done + group.events@.subrange(0, j as int + 1);
                    assert(a.drop_last() =~= done + group.events@.subrange(0, j as int));
                    assert(a.last() == *entry);
                }
                let r = match entry.risk_level {
                    RiskLevel::Critical => 4u8,
                    RiskLevel::High => 3u8,
                    RiskLevel::Medium => 2u8,
                    RiskLevel::Low => 1u8,
                };
                if r == rank {
                    out.push(entry);
                }
                j = j + 1;
            }
            proof {
                assert(group.events@.subrange(0, group.events@.len() as int) == group.events@);
            }
            g = g + 1;
        }
        proof {
            assert(gs.subrange(0, gs.len() as int) == gs);
        }
    }

    /// The flagged entries sorted by risk, highest first; within a level
    /// they keep the order of the groups and of each group.
    pub fn flagged_events_sorted(&self) -> (r: Vec<&FlaggedEvent>)
        ensures
            r@.len() == by_risk(all_entries(self.events_by_flag@)).len(),
            forall|i: int| 0 <= i < r@.len() ==> *r@[i] == #[trigger] by_risk(all_entries(self.events_by_flag@))[i],
    {
        let mut out: Vec<&FlaggedEvent> = Vec::new();
        self.push_rank(&mut out, 4);
        self.push_rank(&mut out, 3);
        self.push_rank(&mut out, 2);
        self.push_rank(&mut out, 1);
        proof {
            let s = all_entries(self.events_by_flag@);
            let a = entries_of_rank(s, 4);
            let b = entries_of_rank(s, 3);
            let c = entries_of_rank(s, 2);
            let d = entries_of_rank(s, 1);
            assert forall|i: int| 0 <= i < out@.len() implies *out@[i] == #[trigger] by_risk(s)[i] by {
                if i < a.len() {
                } else if i < a.len() + b.len() {
                    assert(*out@[a.len() + (i - a.len())] == b[i - a.len()]);
                } else if i < a.len() + b.len() + c.len() {
                    assert(*out@[a.len() + b.len() + (i - a.len() - b.len())] == c[i - a.len() - b.len()]);
                } else {
                    assert(*out@[a.len() + b.len() + c.len() + (i - a.len() - b.len() - c.len())]
                        == d[i - a.len() - b.len() - c.len()]);
                }
            }
        }
        out
    }

    /// The whole part of the report's risk score, from 0 to 100: ten times
    /// the weighted flag count over the number of events. Computed exactly
    /// over integers; with fewer than 2^47 events this is also the whole
    /// part of the same quotient computed in binary floating point, whose
    /// two roundings stay below the distance 1/events from the next whole
    /// number.
    pub fn risk_score_whole(&self) -> (r: u32)
        ensures
            r == risk_score_floor(self.total_events as nat, self.large_amount_count as nat,
                self.near_threshold_count as nat, self.unusual_pattern_count as nat,
                self.high_risk_country_count as nat),
    {
        if self.total_events == 0 {
            0
        } else {
            let w: u128 = 6 * (self.large_amount_count as u128) + 4 * (self.near_threshold_count as u128)
                + 7 * (self.unusual_pattern_count as u128) + 10 * (self.high_risk_country_count as u128);
            let q = (10 * w) / (self.total_events as u128);
            if q > 100 { 100 } else { q as u32 }
        }
    }

    /// The class of the report's risk, read from the whole part of its
    /// score: up to 25 low, up to 50 medium, up to 75 high, above critical.
    pub fn risk_classification(&self) -> (r: RiskLevel)
        ensures
            r == score_class(risk_score_floor(self.total_events as nat, self.large_amount_count as nat,
                self.near_threshold_count as nat, self.unusual_pattern_count as nat,
                self.high_risk_country_count as nat)),
    {
        let s = self.risk_score_whole();
        if s <= 25 {
            RiskLevel::Low
        } else if s <= 50 {
            RiskLevel::Medium
        } else if s <= 75 {
            RiskLevel::High
        } else {
            RiskLevel::Critical
        }
    }

    pub fn headers(&self) -> (r: Vec<String>)
        ensures
            texts_of(r@) == seq!["Event ID"@, "Timestamp"@, "Type"@, "Account"@, "Amount"@, "Currency"@, "Flag"@,
                "Risk Level"@, "Description"@],
    {
        let mut v: Vec<String> = Vec::new();
        v.push(String::from_str("Event ID"));
        v.push(String::from_str("Timestamp"));
        v.push(String::from_str("Type"));
        v.push(String::from_str("Account"));
        v.push(String::from_str("Amount"));
        v.push(String::from_str("Currency"));
        v.push(String::from_str("Flag"));
        v.push(String::from_str("Risk Level"));
        v.push(String::from_str("Description"));
        proof { assert(texts_of(v@) =~= seq!["Event ID"@, "Timestamp"@, "Type"@, "Account"@, "Amount"@, "Currency"@,
            "Flag"@, "Risk Level"@, "Description"@]); }
        v
    }

    /// The rows of the report's table: one per flagged entry, by risk.
    pub fn rows(&self) -> (r: Vec<Vec<String>>)
        ensures
            r@.len() == by_risk(all_entries(self.events_by_flag@)).len(),
            forall|i: int| 0 <= i < r@.len() ==> texts_of(#[trigger] r@[i]@)
                == entry_cells(by_risk(all_entries(self.events_by_flag@))[i]),
    {
        let sorted = self.flagged_events_sorted();
        let mut rows: Vec<Vec<String>> = Vec::new();
        let mut i: usize = 0;
        while i < sorted.len()
            invariant
                i <= sorted@.len(),
                sorted@.len() == by_risk(all_entries(self.events_by_flag@)).len(),
                forall|q: int| 0 <= q < sorted@.len() ==> *sorted@[q] == #[trigger] by_risk(all_entries(self.events_by_flag@))[q],
                rows@.len() == i,
                forall|q: int| 0 <= q < i ==> texts_of(#[trigger] rows@[q]@) == entry_cells(*sorted@[q]),
            decreases sorted@.len() - i,
        {
            let e = sorted[i];
            let mut row: Vec<String> = Vec::new();
            row.push(e.event_id.clone());
            row.push(format_rfc3339(e.timestamp));
            row.push(e.event_type.clone());
            row.push(e.account_id.clone());
            row.push(e.amount.clone());
            row.push(e.currency.clone());
            row.push(e.flag.as_str().to_string());
            row.push(e.risk_level.as_str().to_string());
            row.push(e.description.clone());
            proof { assert(texts_of(row@) =~= entry_cells(*e)); }
            rows.push(row);
            i = i + 1;
        }
        rows
    }
}

/// The cells of an entry's row.
pub open spec fn entry_cells(e: FlaggedEvent) -> Seq<Seq<char>> {
    seq![e.event_id@, rfc3339_text(e.timestamp), e.event_type@, e.account_id@, e.amount@, e.currency@,
        aml_flag_text(e.flag), risk_text(e.risk_level), e.description@]
}

proof fn lemma_entries_of_rank(s: Seq<FlaggedEvent>, rank: int)
    ensures
        forall|i: int| 0 <= i < entries_of_rank(s, rank).len() ==>
            risk_rank((#[trigger] entries_of_rank(s, rank)[i]).risk_level) == rank,
    decreases s.len(),
{
    if s.len() > 0 {
        lemma_entries_of_rank(s.drop_last(), rank);
        let rest = entries_of_rank(s.drop_last(), rank);
        assert forall|i: int| 0 <= i < entries_of_rank(s, rank).len() implies
            risk_rank((#[trigger] entries_of_rank(s, rank)[i]).risk_level) == rank by {
            if i < rest.len() {
                assert(entries_of_rank(s, rank)[i] == rest[i]);
            }
        }
    }
}

proof fn lemma_ranks_cover(s: Seq<FlaggedEvent>)
    ensures
        entries_of_rank(s, 4).to_multiset().add(entries_of_rank(s, 3).to_multiset())
            .add(entries_of_rank(s, 2).to_multiset()).add(entries_of_rank(s, 1).to_multiset())
            =~= s.to_multiset(),
    decreases s.len(),
{
    broadcast use vstd::multiset::group_multiset_axioms;
    broadcast use vstd::seq_lib::to_multiset_build;

    if s.len() == 0 {
        broadcast use vstd::seq_lib::group_to_multiset_ensures;
        assert(s.to_multiset().len() == 0);
        assert(entries_of_rank(s, 4).to_multiset().len() == 0);
        assert(entries_of_rank(s, 3).to_multiset().len() == 0);
        assert(entries_of_rank(s, 2).to_multiset().len() == 0);
        assert(entries_of_rank(s, 1).to_multiset().len() == 0);
        assert(entries_of_rank(s, 4).to_multiset().add(entries_of_rank(s, 3).to_multiset())
            .add(entries_of_rank(s, 2).to_multiset()).add(entries_of_rank(s, 1).to_multiset())
            =~= s.to_multiset());
    } else {
        let init = s.drop_last();
        let x = s.last();
        lemma_ranks_cover(init);
        assert(init.push(x) =~= s);
        assert(s.to_multiset() =~= init.to_multiset().insert(x));
        let a0 = entries_of_rank(init, 4);
        let b0 = entries_of_rank(init, 3);
        let c0 = entries_of_rank(init, 2);
        let d0 = entries_of_rank(init, 1);
        let r = risk_rank(x.risk_level);
        if r == 4 {
            assert(entries_of_rank(s, 4).to_multiset() =~= a0.to_multiset().insert(x));
        } else if r == 3 {
            assert(entries_of_rank(s, 3).to_multiset() =~= b0.to_multiset().insert(x));
        } else if r == 2 {
            assert(entries_of_rank(s, 2).to_multiset() =~= c0.to_multiset().insert(x));
        } else {
            assert(entries_of_rank(s, 1).to_multiset() =~= d0.to_multiset().insert(x));
        }
        assert(entries_of_rank(s, 4).to_multiset().add(entries_of_rank(s, 3).to_multiset())
            .add(entries_of_rank(s, 2).to_multiset()).add(entries_of_rank(s, 1).to_multiset())
            =~= s.to_multiset());
    }
}

/// Sorting flagged entries by risk reorders them: the result holds the same
/// entries, as many times each, riskiest first.
pub proof fn lemma_by_risk(s: Seq<FlaggedEvent>)
    ensures
        by_risk(s).to_multiset() == s.to_multiset(),
        forall|i: int, j: int| 0 <= i < j < by_risk(s).len() ==>
            risk_rank(by_risk(s)[i].risk_level) >= risk_rank(by_risk(s)[j].risk_level),
{
    broadcast use vstd::seq_lib::lemma_multiset_commutative;

    let a = entries_of_rank(s, 4);
    let b = entries_of_rank(s, 3);
    let c = entries_of_rank(s, 2);
    let d = entries_of_rank(s, 1);
    lemma_ranks_cover(s);
    assert((a + b + c + d).to_multiset() =~= a.to_multiset().add(b.to_multiset()).add(c.to_multiset())
        .add(d.to_multiset()));
    lemma_entries_of_rank(s, 4);
    lemma_entries_of_rank(s, 3);
    lemma_entries_of_rank(s, 2);
    lemma_entries_of_rank(s, 1);
    let all = by_risk(s);
    assert forall|i: int| 0 <= i < all.len() implies risk_rank((#[trigger] all[i]).risk_level)
        == (if i < a.len() { 4int } else if i < a.len() + b.len() { 3int }
            else if i < a.len() + b.len() + c.len() { 2int } else { 1int }) by {
        if i < a.len() {
            assert(all[i] == a[i]);
        } else if i < a.len() + b.len() {
            assert(all[i] == b[i - a.len()]);
        } else if i < a.len() + b.len() + c.len() {
            assert(all[i] == c[i - a.len() - b.len()]);
        } else {
            assert(all[i] == d[i - a.len() - b.len() - c.len()]);
        }
    }
    assert forall|i: int, j: int| 0 <= i < j < all.len() implies
        risk_rank(all[i].risk_level) >= risk_rank(all[j].risk_level) by {
        assert(risk_rank(all[i].risk_level) == risk_rank(all[i].risk_level));
        assert(risk_rank(all[j].risk_level) == risk_rank(all[j].risk_level));
    }
}


/// The headers of the report's table.
pub open spec fn aml_headers() -> Seq<Seq<char>> {
    seq!["Event ID"@, "Timestamp"@, "Type"@, "Account"@, "Amount"@, "Currency"@, "Flag"@, "Risk Level"@,
        "Description"@]
}

/// The summary of a report, its risk score written as `score`: the counts,
/// the score, the risk class and the time it was made.
pub open spec fn aml_summary(r: AmlReport, score: Seq<char>) -> Seq<(Seq<char>, Seq<char>)> {
    seq![
        ("Total Events"@, decimal_digits(r.total_events as nat)),
        ("Flagged Events"@, decimal_digits(r.flagged_events as nat)),
        ("Large Amount"@, decimal_digits(r.large_amount_count as nat)),
        ("Near Threshold"@, decimal_digits(r.near_threshold_count as nat)),
        ("Unusual Pattern"@, decimal_digits(r.unusual_pattern_count as nat)),
        ("High Risk Country"@, decimal_digits(r.high_risk_country_count as nat)),
        ("Risk Score"@, score),
        ("Risk Level"@, risk_text(score_class(risk_score_floor(r.total_events as nat, r.large_amount_count as nat,
            r.near_threshold_count as nat, r.unusual_pattern_count as nat, r.high_risk_country_count as nat)))),
        ("Generated At"@, rfc3339_text(r.generated_at)),
    ]
}

impl AmlReport {
    /// The summary of the report; the risk score, a figure in floating
    /// point, comes written by the caller.
    pub fn summary_with_score(&self, score: &str) -> (r: Vec<(String, String)>)
        ensures
            pair_texts(r@) == aml_summary(*self, score@),
    {
        let mut v: Vec<(String, String)> = Vec::new();
        v.push((String::from_str("Total Events"), count_text(self.total_events)));
        v.push((String::from_str("Flagged Events"), count_text(self.flagged_events)));
        v.push((String::from_str("Large Amount"), count_text(self.large_amount_count)));
        v.push((String::from_str("Near Threshold"), count_text(self.near_threshold_count)));
        v.push((String::from_str("Unusual Pattern"), count_text(self.unusual_pattern_count)));
        v.push((String::from_str("High Risk Country"), count_text(self.high_risk_country_count)));
        v.push((String::from_str("Risk Score"), String::from_str(score)));
        v.push((String::from_str("Risk Level"), String::from_str(self.risk_classification().as_str())));
        v.push((String::from_str("Generated At"), format_rfc3339(self.generated_at)));
        proof { assert(pair_texts(v@) =~= aml_summary(*self, score@)); }
        v
    }

    /// The report as a table to export, its risk score written by the caller.
    pub fn as_table(&self, score: &str) -> (r: TableReport)
        ensures
            r.title@ == self.title@,
            texts_of(r.headers@) == aml_headers(),
            r.rows@.len() == by_risk(all_entries(self.events_by_flag@)).len(),
            forall|i: int| 0 <= i < r.rows@.len() ==> texts_of(#[trigger] r.rows@[i]@)
                == entry_cells(by_risk(all_entries(self.events_by_flag@))[i]),
            pair_texts(r.summary@) == aml_summary(*self, score@),
    {
        TableReport {
            title: self.title.clone(),
            headers: self.headers(),
            rows: self.rows(),
            summary: self.summary_with_score(score),
        }
    }
}


/// The report's text summary; `score` is its risk score and `share` the
/// percentage of flags over events, both figures in floating point written
/// by the caller.
pub open spec fn aml_summary_text(r: AmlReport, score: Seq<char>, share: Seq<char>) -> Seq<char> {
    "=== "@ + r.title@ + " ===\n\n"@
    + "Generated: "@ + time_text(r.generated_at, "%Y-%m-%d %H:%M:%S UTC"@) + "\n"@
    + "Risk Score: "@ + score + "/100 ("@ + risk_text(score_class(risk_score_floor(r.total_events as nat,
        r.large_amount_count as nat, r.near_threshold_count as nat, r.unusual_pattern_count as nat,
        r.high_risk_country_count as nat))) + ")\n\n"@
    + "--- Statistics ---\n"@
    + "Total Events Analyzed: "@ + decimal_digits(r.total_events as nat) + "\n"@
    + "Flagged Events: "@ + decimal_digits(r.flagged_events as nat) + " ("@ + share + "%)\n"@
    + "  - Large Amount (>$10,000): "@ + decimal_digits(r.large_amount_count as nat) + "\n"@
    + "  - Near Threshold ($9,000-$9,999): "@ + decimal_digits(r.near_threshold_count as nat) + "\n"@
    + "  - Unusual Pattern: "@ + decimal_digits(r.unusual_pattern_count as nat) + "\n"@
    + "  - High Risk Country: "@ + decimal_digits(r.high_risk_country_count as nat) + "\n"@
}

impl AmlReport {
    /// The report's text summary, the two figures in floating point written
    /// by the caller.
    pub fn summary_text_with(&self, score: &str, share: &str) -> (r: String)
        ensures
            r@ == aml_summary_text(*self, score@, share@),
    {
        let mut s = String::from_str("=== ");
        s.append(self.title.as_str());
        s.append(" ===\n\n");
        s.append("Generated: ");
        proof { lemma_plain_patterns(); }
        s.append(format_time(self.generated_at, "%Y-%m-%d %H:%M:%S UTC").as_str());
        s.append("\n");
        s.append("Risk Score: ");
        s.append(score);
        s.append("/100 (");
        s.append(self.risk_classification().as_str());
        s.append(")\n\n");
        s.append("--- Statistics ---\n");
        s.append("Total Events Analyzed: ");
        s.append(count_text(self.total_events).as_str());
        s.append("\n");
        s.append("Flagged Events: ");
        s.append(count_text(self.flagged_events).as_str());
        s.append(" (");
        s.append(share);
        s.append("%)\n");
        s.append("  - Large Amount (>$10,000): ");
        s.append(count_text(self.large_amount_count).as_str());
        s.append("\n");
        s.append("  - Near Threshold ($9,000-$9,999): ");
        s.append(count_text(self.near_threshold_count).as_str());
        s.append("\n");
        s.append("  - Unusual Pattern: ");
        s.append(count_text(self.unusual_pattern_count).as_str());
        s.append("\n");
        s.append("  - High Risk Country: ");
        s.append(count_text(self.high_risk_country_count).as_str());
        s.append("\n");
        s
    }
}

/// The risk score weighs the flags against the events: 3 per large amount,
/// 2 per near-threshold amount, 3.5 per unusual pattern and 5 per
/// high-risk country, over the most the events could weigh, 5 each. Its
/// whole part is 0 without events and at most 100; it is 100 exactly when
/// the flags weigh as much as that maximum or more; below that, the score
/// `s` is the whole part of the percentage: `s` percent of the maximum is
/// at most the flags' weight, `s + 1` percent is more. (Weights are
/// doubled below to keep them whole.) Raising any count never lowers the
/// score.
pub proof fn lemma_risk_score(total: nat, large: nat, near: nat, unusual: nat, high: nat)
    ensures
        ({
            let s = risk_score_floor(total, large, near, unusual, high);
            let weight2 = 6 * large + 4 * near + 7 * unusual + 10 * high;
            let most2 = 10 * total;
            &&& s <= 100
            &&& total == 0 ==> s == 0
            &&& total > 0 ==> (s == 100 <==> 100 * most2 <= 100 * weight2)
            &&& total > 0 && s < 100 ==> s * most2 <= 100 * weight2 && 100 * weight2 < (s + 1) * most2
        }),
        risk_score_floor(total, large, near, unusual, high) <= risk_score_floor(total, large + 1, near, unusual, high),
        risk_score_floor(total, large, near, unusual, high) <= risk_score_floor(total, large, near + 1, unusual, high),
        risk_score_floor(total, large, near, unusual, high) <= risk_score_floor(total, large, near, unusual + 1, high),
        risk_score_floor(total, large, near, unusual, high) <= risk_score_floor(total, large, near, unusual, high + 1),
{
    if total > 0 {
        let w = 6 * large + 4 * near + 7 * unusual + 10 * high;
        let x = 10 * w;
        let q = x / total;
        assert(q * total <= x < (q + 1) * total) by (nonlinear_arith)
            requires
                total > 0,
                q == x / total,
                x >= 0,
        {
            vstd::arithmetic::div_mod::lemma_fundamental_div_mod(x as int, total as int);
        }
        assert(q >= 100 ==> 100 * total <= x) by (nonlinear_arith)
            requires
                q * total <= x,
                total > 0,
        {}
        assert(100 * total <= x ==> q >= 100) by (nonlinear_arith)
            requires
                x < (q + 1) * total,
                total > 0,
        {}
        assert(q * (10 * total) <= 100 * w && 100 * w < (q + 1) * (10 * total)) by (nonlinear_arith)
            requires
                q * total <= x,
                x < (q + 1) * total,
                x == 10 * w,
        {}
        assert(100 * (10 * total) <= 100 * w <==> 100 * total <= x) by (nonlinear_arith)
            requires
                x == 10 * w,
        {}
        vstd::arithmetic::div_mod::lemma_div_is_ordered((10 * w) as int, (10 * (w + 6)) as int, total as int);
        vstd::arithmetic::div_mod::lemma_div_is_ordered((10 * w) as int, (10 * (w + 4)) as int, total as int);
        vstd::arithmetic::div_mod::lemma_div_is_ordered((10 * w) as int, (10 * (w + 7)) as int, total as int);
        vstd::arithmetic::div_mod::lemma_div_is_ordered((10 * w) as int, (10 * (w + 10)) as int, total as int);
    }
}

proof fn lemma_count_appended(base: Seq<(Event, AmlFlag)>, e: Event, flags: Seq<AmlFlag>, f: AmlFlag)
    ensures
        count_flag(base + flags.map_values(|g: AmlFlag| (e, g)), f) == count_flag(base, f) + flags.to_multiset().count(f),
    decreases flags.len(),
{
    broadcast use vstd::seq_lib::group_to_multiset_ensures, vstd::multiset::group_multiset_axioms;

    if flags.len() == 0 {
        assert(base + flags.map_values(|g: AmlFlag| (e, g)) =~= base);
        assert(flags.to_multiset() =~= vstd::multiset::Multiset::<AmlFlag>::empty());
    } else {
        let init = flags.drop_last();
        lemma_count_appended(base, e, init, f);
        let whole = base + flags.map_values(|g: AmlFlag| (e, g));
        assert(whole.drop_last() =~= base + init.map_values(|g: AmlFlag| (e, g)));
        assert(whole.last() == (e, flags.last()));
        assert(init.push(flags.last()) =~= flags);
    }
}

/// Adding an event to a list adds its flags to what the report counts:
/// every kind of flag counts once more for each time the event carries it
/// (whatever else it carries), and the number of flagged entries grows by
/// the number of its flags. Without events nothing is counted.
pub proof fn lemma_counts_grow(events: Seq<Event>, e: Event, f: AmlFlag)
    ensures
        raised(events.push(e)).len() == raised(events).len() + e.aml_flags@.len(),
        count_flag(raised(events.push(e)), f) == count_flag(raised(events), f) + e.aml_flags@.to_multiset().count(f),
        raised(Seq::<Event>::empty()).len() == 0,
{
    let all = events.push(e);
    assert(all.drop_last() =~= events);
    assert(all.last() == e);
    lemma_count_appended(raised(events), e, e.aml_flags@, f);
}

/// A higher score never gives a lower class, and the classes change
/// exactly between 25 and 26 (low to medium), 50 and 51 (medium to high)
/// and 75 and 76 (high to critical).
pub proof fn lemma_score_classes(a: nat, b: nat)
    ensures
        a <= b ==> risk_rank(score_class(a)) <= risk_rank(score_class(b)),
        score_class(25) == RiskLevel::Low && score_class(26) == RiskLevel::Medium,
        score_class(50) == RiskLevel::Medium && score_class(51) == RiskLevel::High,
        score_class(75) == RiskLevel::High && score_class(76) == RiskLevel::Critical,
        score_class(0) == RiskLevel::Low,
{
}

} // verus!
