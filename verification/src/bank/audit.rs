//! What an auditor's requests select from the event log, and the record an
//! AML scan leaves.
use vstd::prelude::*;
use vstd::string::StringExecFns;
use crate::decimal::Amount;
use crate::text::{decimal_digits, push_decimal};
use super::event::{opt_view, AmlFlag, Event, EventType};
use super::filter::{filtered, AmlReport, EventFilter};
use super::person::PersonType;

verus! {

/// The filter that keeps events with one of some flags.
pub open spec fn flags_filter(flags: Vec<AmlFlag>) -> EventFilter {
    EventFilter {
        account_id: None,
        actor_id: None,
        event_types: None,
        aml_flags: Some(flags),
        only_flagged: false,
        min_amount: None,
        max_amount: None,
    }
}

/// The filter that keeps events with a flag.
pub open spec fn flagged_filter() -> EventFilter {
    EventFilter {
        account_id: None,
        actor_id: None,
        event_types: None,
        aml_flags: None,
        only_flagged: true,
        min_amount: None,
        max_amount: None,
    }
}

/// The events a scan looks at: those with one of the given flags, or all.
pub fn scan_events(events: Vec<Event>, flag_filter: Option<Vec<AmlFlag>>) -> (r: Vec<Event>)
    ensures
        match flag_filter {
            Some(fs) => r@ == filtered(flags_filter(fs), events@),
            None => r@ == events@,
        },
{
    match flag_filter {
        Some(fs) => EventFilter::new().aml_flags(fs).apply(events),
        None => events,
    }
}

/// The events that carry a flag, in order.
pub fn flagged_events(events: Vec<Event>) -> (r: Vec<Event>)
    ensures
        r@ == filtered(flagged_filter(), events@),
{
    EventFilter::new().flagged_only().apply(events)
}

/// The events with an amount of at least `min`, in order.
pub open spec fn high_value(events: Seq<Event>, min: int) -> Seq<Event>
    decreases events.len(),
{
    if events.len() == 0 {
        Seq::empty()
    } else {
        let rest = high_value(events.drop_last(), min);
        if events.last().amount matches Some(a) && a@ >= min { rest.push(events.last()) } else { rest }
    }
}

/// The events with an amount of at least `min_amount`, in order.
pub fn high_value_events(events: Vec<Event>, min_amount: &Amount) -> (r: Vec<Event>)
    ensures
        r@ == high_value(events@, min_amount@),
{
    let ghost all = events@;
    let mut out: Vec<Event> = Vec::new();
    for e in it: events
        invariant
            all == it.seq(),
            out@ == high_value(all.subrange(0, it.index() as int), min_amount@),
    {
        let ghost k = it.index() as int;
        assert(all.subrange(0, k + 1).drop_last() == all.subrange(0, k));
        assert(all.subrange(0, k + 1).last() == e);
        let keep = match &e.amount {
            Some(a) => !a.less_than(min_amount),
            None => false,
        };
        if keep {
            out.push(e);
        }
    }
    assert(all.subrange(0, all.len() as int) == all);
    out
}

/// The description of a scan: "AML scan: <n> events analyzed, <m> flagged".
pub open spec fn scan_description(total: nat, flagged: nat) -> Seq<char> {
    "AML scan: "@ + decimal_digits(total) + " events analyzed, "@ + decimal_digits(flagged) + " flagged"@
}

/// The record an auditor's scan leaves in the log: an audit access by the
/// auditor on the system account, described by the report's counts.
pub fn scan_record(event_id: String, auditor_id: &str, report: &AmlReport) -> (r: Event)
    ensures
        r.event_id@ == event_id@,
        r.event_type == EventType::AuditAccess,
        r.actor_id@ == auditor_id@,
        r.actor_role == PersonType::Auditor,
        r.account_id@ == "SYSTEM"@,
        r.amount is None,
        r.aml_flags@.len() == 0,
        opt_view(r.description) == Some(scan_description(report.total_events as nat, report.flagged_events as nat)),
{
    let mut d = String::from_str("AML scan: ");
    push_decimal(&mut d, report.total_events as u64);
    d.append(" events analyzed, ");
    push_decimal(&mut d, report.flagged_events as u64);
    d.append(" flagged");
    proof {
        reveal_strlit("AML scan: ");
        reveal_strlit(" events analyzed, ");
        reveal_strlit(" flagged");
        assert(d@ =~= scan_description(report.total_events as nat, report.flagged_events as nat));
    }
    Event::new(event_id, EventType::AuditAccess, String::from_str(auditor_id), PersonType::Auditor,
        String::from_str("SYSTEM")).with_description(d.as_str())
}

} // verus!
