//! Selecting recorded events, and the anti-money-laundering summary of a
//! list of events.
use vstd::prelude::*;
use crate::decimal::Amount;
use vstd::string::StringExecFns;
use crate::text::{count_text, decimal_digits, str_eq};
use super::event::{aml_flag_text, AmlFlag, Event, EventType};

verus! {

/// A filter on events; every criterion that is set must hold.
#[derive(Debug)]
pub struct EventFilter {
    /// Only this account
    pub account_id: Option<String>,
    /// Only this actor
    pub actor_id: Option<String>,
    /// Only these event types
    pub event_types: Option<Vec<EventType>>,
    /// Only events with one of these flags
    pub aml_flags: Option<Vec<AmlFlag>>,
    /// Only events with a flag
    pub only_flagged: bool,
    /// Events with an amount: at least this
    pub min_amount: Option<Amount>,
    /// Events with an amount: at most this
    pub max_amount: Option<Amount>,
}

/// Whether an event passes a filter.
pub open spec fn filter_accepts(f: EventFilter, e: Event) -> bool {
    &&& (f.account_id matches Some(a) ==> e.account_id@ == a@)
    &&& (f.actor_id matches Some(a) ==> e.actor_id@ == a@)
    &&& (f.event_types matches Some(ts) ==> ts@.contains(e.event_type))
    &&& (f.aml_flags matches Some(fs) ==> exists|i: int| 0 <= i < e.aml_flags@.len() && fs@.contains(#[trigger] e.aml_flags@[i]))
    &&& (f.only_flagged ==> e.aml_flags@.len() > 0)
    &&& (e.amount matches Some(amount) ==> {
        &&& (f.min_amount matches Some(min) ==> amount@ >= min@)
        &&& (f.max_amount matches Some(max) ==> amount@ <= max@)
    })
}

/// The events that pass a filter, in order.
pub open spec fn filtered(f: EventFilter, events: Seq<Event>) -> Seq<Event>
    decreases events.len(),
{
    if events.len() == 0 {
        Seq::empty()
    } else {
        let rest = filtered(f, events.drop_last());
        if filter_accepts(f, events.last()) { rest.push(events.last()) } else { rest }
    }
}

/// A filter keeps only events it accepts, keeps every event it accepts,
/// never lengthens the list, and keeps all when it is open.
pub proof fn lemma_filtered(f: EventFilter, events: Seq<Event>)
    ensures
        filtered(f, events).len() <= events.len(),
        forall|i: int| 0 <= i < filtered(f, events).len() ==> filter_accepts(f, #[trigger] filtered(f, events)[i])
            && events.contains(filtered(f, events)[i]),
        forall|i: int| 0 <= i < events.len() && filter_accepts(f, #[trigger] events[i])
            ==> filtered(f, events).contains(events[i]),
        f.is_open() ==> filtered(f, events) == events,
    decreases events.len(),
{
    if events.len() > 0 {
        let init = events.drop_last();
        let x = events.last();
        lemma_filtered(f, init);
        let rest = filtered(f, init);
        let r = filtered(f, events);
        assert forall|i: int| 0 <= i < r.len() implies filter_accepts(f, #[trigger] r[i]) && events.contains(r[i]) by {
            if i < rest.len() {
                assert(r[i] == rest[i]);
                let q = choose|q: int| 0 <= q < init.len() && init[q] == rest[i];
                assert(events[q] == init[q]);
            } else {
                assert(r[i] == x);
                assert(events[events.len() - 1] == x);
            }
        }
        assert forall|i: int| 0 <= i < events.len() && filter_accepts(f, #[trigger] events[i])
            implies r.contains(events[i]) by {
            if i < events.len() - 1 {
                assert(events[i] == init[i]);
                let w = choose|w: int| 0 <= w < rest.len() && rest[w] == init[i];
                assert(r[w] == rest[w]);
            } else {
                assert(r[r.len() - 1] == x);
            }
        }
        if f.is_open() {
            assert(filter_accepts(f, x));
            assert(init.push(x) =~= events);
        }
    }
}

/// A flag criterion looks at every flag an event carries: when one of its
/// flags, at any position, is among the requested flags, the criterion
/// lets the event through (it passes exactly when it passes the same
/// filter without the criterion); when none is, the event is kept out.
pub proof fn lemma_flag_criterion(f: EventFilter, fs: Vec<AmlFlag>, e: Event)
    ensures
        (exists|k: int| 0 <= k < e.aml_flags@.len() && fs@.contains(#[trigger] e.aml_flags@[k])) ==>
            (filter_accepts(EventFilter { aml_flags: Some(fs), ..f }, e)
                == filter_accepts(EventFilter { aml_flags: None, ..f }, e)),
        (forall|k: int| 0 <= k < e.aml_flags@.len() ==> !fs@.contains(#[trigger] e.aml_flags@[k])) ==>
            !filter_accepts(EventFilter { aml_flags: Some(fs), ..f }, e),
{
}

/// Only which flags an event carries matters to a filter, not their order
/// or repetition: an event with the same flags listed otherwise passes
/// exactly when it does.
pub proof fn lemma_flag_order(f: EventFilter, e: Event, flags: Vec<AmlFlag>)
    requires
        forall|x: AmlFlag| flags@.contains(x) <==> e.aml_flags@.contains(x),
    ensures
        filter_accepts(f, Event { aml_flags: flags, ..e }) == filter_accepts(f, e),
{
    let e2 = Event { aml_flags: flags, ..e };
    if let Some(fs) = f.aml_flags {
        if exists|i: int| 0 <= i < e.aml_flags@.len() && fs@.contains(#[trigger] e.aml_flags@[i]) {
            let i = choose|i: int| 0 <= i < e.aml_flags@.len() && fs@.contains(#[trigger] e.aml_flags@[i]);
            assert(e.aml_flags@.contains(e.aml_flags@[i]));
            assert(flags@.contains(e.aml_flags@[i]));
            let j = choose|j: int| 0 <= j < flags@.len() && flags@[j] == e.aml_flags@[i];
            assert(fs@.contains(e2.aml_flags@[j]));
        }
        if exists|i: int| 0 <= i < e2.aml_flags@.len() && fs@.contains(#[trigger] e2.aml_flags@[i]) {
            let i = choose|i: int| 0 <= i < e2.aml_flags@.len() && fs@.contains(#[trigger] e2.aml_flags@[i]);
            assert(flags@.contains(flags@[i]));
            assert(e.aml_flags@.contains(flags@[i]));
            let j = choose|j: int| 0 <= j < e.aml_flags@.len() && e.aml_flags@[j] == flags@[i];
            assert(fs@.contains(e.aml_flags@[j]));
        }
    }
    if flags@.len() > 0 {
        assert(flags@.contains(flags@[0]));
        assert(e.aml_flags@.contains(flags@[0]));
    }
    if e.aml_flags@.len() > 0 {
        assert(e.aml_flags@.contains(e.aml_flags@[0]));
        assert(flags@.contains(e.aml_flags@[0]));
    }
    assert((flags@.len() > 0) == (e.aml_flags@.len() > 0));
    assert(e2.account_id == e.account_id && e2.actor_id == e.actor_id && e2.event_type == e.event_type
        && e2.amount == e.amount);
    assert(f.aml_flags matches Some(fs) ==> ((exists|i: int| 0 <= i < e.aml_flags@.len() && fs@.contains(#[trigger] e.aml_flags@[i]))
        == (exists|i: int| 0 <= i < e2.aml_flags@.len() && fs@.contains(#[trigger] e2.aml_flags@[i]))));
}

/// The filter with no criterion set.
pub open spec fn open_filter() -> EventFilter {
    EventFilter {
        account_id: None,
        actor_id: None,
        event_types: None,
        aml_flags: None,
        only_flagged: false,
        min_amount: None,
        max_amount: None,
    }
}

/// A filter's criteria hold independently: an event passes a filter
/// exactly when it passes each of the filters made of one of its criteria
/// alone (the amount bounds counting as one), and the filter with no
/// criterion lets every event through.
pub proof fn lemma_criteria_independent(f: EventFilter, e: Event)
    ensures
        filter_accepts(f, e) <==> {
            &&& filter_accepts(EventFilter { account_id: f.account_id, ..open_filter() }, e)
            &&& filter_accepts(EventFilter { actor_id: f.actor_id, ..open_filter() }, e)
            &&& filter_accepts(EventFilter { event_types: f.event_types, ..open_filter() }, e)
            &&& filter_accepts(EventFilter { aml_flags: f.aml_flags, ..open_filter() }, e)
            &&& filter_accepts(EventFilter { only_flagged: f.only_flagged, ..open_filter() }, e)
            &&& filter_accepts(EventFilter { min_amount: f.min_amount, max_amount: f.max_amount, ..open_filter() }, e)
        },
        filter_accepts(open_filter(), e),
{
}

/// Whether a list of event types holds one.
fn has_type(ts: &Vec<EventType>, t: EventType) -> (r: bool)
    ensures
        r == ts@.contains(t),
{
    let mut i: usize = 0;
    while i < ts.len()
        invariant
            i <= ts@.len(),
            forall|j: int| 0 <= j < i ==> ts@[j] != t,
        decreases ts@.len() - i,
    {
        if ts[i] == t {
            return true;
        }
        i = i + 1;
    }
    false
}

/// Whether a list of flags holds one.
pub fn has_flag(fs: &Vec<AmlFlag>, f: AmlFlag) -> (r: bool)
    ensures
        r == fs@.contains(f),
{
    let mut i: usize = 0;
    while i < fs.len()
        invariant
            i <= fs@.len(),
            forall|j: int| 0 <= j < i ==> fs@[j] != f,
        decreases fs@.len() - i,
    {
        if fs[i] == f {
            return true;
        }
        i = i + 1;
    }
    false
}

impl EventFilter {
    /// A filter with no criterion.
    pub open spec fn is_open(&self) -> bool {
        &&& self.account_id is None
        &&& self.actor_id is None
        &&& self.event_types is None
        &&& self.aml_flags is None
        &&& !self.only_flagged
        &&& self.min_amount is None
        &&& self.max_amount is None
    }

    /// A filter that lets every event through.
    pub fn new() -> (r: EventFilter)
        ensures
            r.is_open(),
    {
        EventFilter {
            account_id: None,
            actor_id: None,
            event_types: None,
            aml_flags: None,
            only_flagged: false,
            min_amount: None,
            max_amount: None,
        }
    }

    /// The filter, limited to an account.
    pub fn account(self, account_id: &str) -> (r: EventFilter)
        ensures
            r.account_id matches Some(a) && a@ == account_id@,
            r.actor_id == self.actor_id,
            r.event_types == self.event_types,
            r.aml_flags == self.aml_flags,
            r.only_flagged == self.only_flagged,
            r.min_amount == self.min_amount,
            r.max_amount == self.max_amount,
    {
        EventFilter { account_id: Some(account_id.to_string()), ..self }
    }

    /// The filter, limited to an actor.
    pub fn actor(self, actor_id: &str) -> (r: EventFilter)
        ensures
            r.actor_id matches Some(a) && a@ == actor_id@,
            r.account_id == self.account_id,
            r.event_types == self.event_types,
            r.aml_flags == self.aml_flags,
            r.only_flagged == self.only_flagged,
            r.min_amount == self.min_amount,
            r.max_amount == self.max_amount,
    {
        EventFilter { actor_id: Some(actor_id.to_string()), ..self }
    }

    /// The filter, limited to some event types.
    pub fn event_types(self, types: Vec<EventType>) -> (r: EventFilter)
        ensures
            r.event_types == Some(types),
            r.account_id == self.account_id,
            r.actor_id == self.actor_id,
            r.aml_flags == self.aml_flags,
            r.only_flagged == self.only_flagged,
            r.min_amount == self.min_amount,
            r.max_amount == self.max_amount,
    {
        EventFilter { event_types: Some(types), ..self }
    }

    /// The filter, limited to events with one of some flags.
    pub fn aml_flags(self, flags: Vec<AmlFlag>) -> (r: EventFilter)
        ensures
            r.aml_flags == Some(flags),
            r.account_id == self.account_id,
            r.actor_id == self.actor_id,
            r.event_types == self.event_types,
            r.only_flagged == self.only_flagged,
            r.min_amount == self.min_amount,
            r.max_amount == self.max_amount,
    {
        EventFilter { aml_flags: Some(flags), ..self }
    }

    /// The filter, limited to flagged events.
    pub fn flagged_only(self) -> (r: EventFilter)
        ensures
            r.only_flagged,
            r.account_id == self.account_id,
            r.actor_id == self.actor_id,
            r.event_types == self.event_types,
            r.aml_flags == self.aml_flags,
            r.min_amount == self.min_amount,
            r.max_amount == self.max_amount,
    {
        EventFilter { only_flagged: true, ..self }
    }

    /// The filter, limited to amounts between two bounds.
    pub fn amount_range(self, min: Amount, max: Amount) -> (r: EventFilter)
        ensures
            r.min_amount == Some(min),
            r.max_amount == Some(max),
            r.account_id == self.account_id,
            r.actor_id == self.actor_id,
            r.event_types == self.event_types,
            r.aml_flags == self.aml_flags,
            r.only_flagged == self.only_flagged,
    {
        EventFilter { min_amount: Some(min), max_amount: Some(max), ..self }
    }

    /// Whether an event passes the filter.
    pub fn matches(&self, event: &Event) -> (r: bool)
        ensures
            r == filter_accepts(*self, *event),
    {
        if let Some(acc_id) = &self.account_id {
            if !str_eq(event.account_id.as_str(), acc_id.as_str()) {
                return false;
            }
        }
        if let Some(actor_id) = &self.actor_id {
            if !str_eq(event.actor_id.as_str(), actor_id.as_str()) {
                return false;
            }
        }
        if let Some(types) = &self.event_types {
            if !has_type(types, event.event_type) {
                return false;
            }
        }
        if let Some(flags) = &self.aml_flags {
            let mut found = false;
            let mut i: usize = 0;
            while i < event.aml_flags.len()
                invariant
                    i <= event.aml_flags@.len(),
                    found == exists|j: int| 0 <= j < i && flags@.contains(#[trigger] event.aml_flags@[j]),
                decreases event.aml_flags@.len() - i,
            {
                if has_flag(flags, event.aml_flags[i]) {
                    found = true;
                }
                i = i + 1;
            }
            if !found {
                return false;
            }
        }
        if self.only_flagged && event.aml_flags.len() == 0 {
            return false;
        }
        if let Some(amount) = &event.amount {
            if let Some(min) = &self.min_amount {
                if amount.less_than(min) {
                    return false;
                }
            }
            if let Some(max) = &self.max_amount {
                if max.less_than(amount) {
                    return false;
                }
            }
        }
        true
    }

    /// The events that pass the filter, in order.
    pub fn apply(&self, events: Vec<Event>) -> (r: Vec<Event>)
        ensures
            r@ == filtered(*self, events@),
    {
        let ghost all = events@;
        let mut out: Vec<Event> = Vec::new();
        for e in it: events
            invariant
                all == it.seq(),
                out@ == filtered(*self, all.subrange(0, it.index() as int)),
        {
            let ghost k = it.index() as int;
            assert(all.subrange(0, k + 1).drop_last() == all.subrange(0, k));
            assert(all.subrange(0, k + 1).last() == e);
            if self.matches(&e) {
                out.push(e);
            }
        }
        assert(all.subrange(0, all.len() as int) == all);
        out
    }
}

/// One entry of a summary: the events that carry a flag, once per
/// occurrence of the flag in an event's list.
#[derive(Debug)]
pub struct FlagEvents {
    /// The flag's code
    pub flag: String,
    /// The events, in order
    pub events: Vec<Event>,
}

/// The anti-money-laundering summary of a list of events.
#[derive(Debug)]
pub struct AmlReport {
    /// The number of events
    pub total_events: usize,
    /// The number of events with at least one flag
    pub flagged_events: usize,
    /// The number of LargeAmount flags
    pub large_amount_count: usize,
    /// The number of UnusualPattern flags
    pub unusual_pattern_count: usize,
    /// The number of HighRiskCountry flags
    pub high_risk_country_count: usize,
    /// The events of each flag, in the order the flags first occur
    pub events_by_flag: Vec<FlagEvents>,
}

/// The number of events with at least one flag.
pub open spec fn flagged_count(events: Seq<Event>) -> nat
    decreases events.len(),
{
    if events.len() == 0 {
        0
    } else {
        flagged_count(events.drop_last()) + if events.last().aml_flags@.len() > 0 { 1nat } else { 0nat }
    }
}

/// The number of occurrences of a flag in a list of flags.
pub open spec fn flag_count(flags: Seq<AmlFlag>, f: AmlFlag) -> nat
    decreases flags.len(),
{
    if flags.len() == 0 {
        0
    } else {
        flag_count(flags.drop_last(), f) + if flags.last() == f { 1nat } else { 0nat }
    }
}

/// The number of occurrences of a flag over a list of events.
pub open spec fn events_flag_count(events: Seq<Event>, f: AmlFlag) -> nat
    decreases events.len(),
{
    if events.len() == 0 {
        0
    } else {
        events_flag_count(events.drop_last(), f) + flag_count(events.last().aml_flags@, f)
    }
}

/// The occurrences of a flag over a list of events: each event repeated
/// once per occurrence of the flag in its list.
pub open spec fn flag_occurrences(events: Seq<Event>, f: AmlFlag) -> Seq<Event>
    decreases events.len(),
{
    if events.len() == 0 {
        Seq::empty()
    } else {
        flag_occurrences(events.drop_last(), f)
            + Seq::new(flag_count(events.last().aml_flags@, f), |i: int| events.last())
    }
}

/// Two lists of events hold the same values.
pub open spec fn same_events(a: Seq<Event>, b: Seq<Event>) -> bool {
    a.len() == b.len() && forall|i: int| 0 <= i < a.len() ==> (#[trigger] a[i]).same_as(&b[i])
}

/// The flags that occur over a list of events, each once, in the order
/// they first occur.
pub open spec fn flags_in_order(events: Seq<Event>) -> Seq<AmlFlag>
    decreases events.len(),
{
    if events.len() == 0 {
        Seq::empty()
    } else {
        let before = flags_in_order(events.drop_last());
        add_new_flags(before, events.last().aml_flags@)
    }
}

/// A list of flags followed by those of another list it lacks, each once,
/// in order.
pub open spec fn add_new_flags(seen: Seq<AmlFlag>, more: Seq<AmlFlag>) -> Seq<AmlFlag>
    decreases more.len(),
{
    if more.len() == 0 {
        seen
    } else {
        let s = add_new_flags(seen, more.drop_last());
        if s.contains(more.last()) { s } else { s.push(more.last()) }
    }
}

impl AmlReport {
    /// What a summary of `events` holds: the counts, and for each flag that
    /// occurs, in the order flags first occur, the events that carry it.
    pub open spec fn summarizes(&self, events: Seq<Event>) -> bool {
        &&& self.total_events == events.len()
        &&& self.flagged_events == flagged_count(events)
        &&& self.large_amount_count == events_flag_count(events, AmlFlag::LargeAmount)
        &&& self.unusual_pattern_count == events_flag_count(events, AmlFlag::UnusualPattern)
        &&& self.high_risk_country_count == events_flag_count(events, AmlFlag::HighRiskCountry)
        &&& self.events_by_flag@.len() == flags_in_order(events).len()
        &&& forall|i: int| 0 <= i < self.events_by_flag@.len() ==> {
            let f = flags_in_order(events)[i];
            &&& (#[trigger] self.events_by_flag@[i]).flag@ == aml_flag_text(f)
            &&& same_events(self.events_by_flag@[i].events@, flag_occurrences(events, f))
        }
    }
}


/// The number of flags over a list of events.
pub open spec fn total_flags(events: Seq<Event>) -> nat
    decreases events.len(),
{
    if events.len() == 0 {
        0
    } else {
        total_flags(events.drop_last()) + events.last().aml_flags@.len()
    }
}

proof fn lemma_flag_count(fs: Seq<AmlFlag>, f: AmlFlag)
    ensures
        flag_count(fs, f) <= fs.len(),
        flag_count(fs, f) == 0 <==> !fs.contains(f),
    decreases fs.len(),
{
    if fs.len() > 0 {
        lemma_flag_count(fs.drop_last(), f);
        if fs.drop_last().contains(f) {
            let i = choose|i: int| 0 <= i < fs.drop_last().len() && fs.drop_last()[i] == f;
            assert(fs[i] == f);
        }
        if fs.contains(f) && fs.last() != f {
            let i = choose|i: int| 0 <= i < fs.len() && fs[i] == f;
            assert(fs.drop_last()[i] == f);
        }
        if fs.last() == f {
            assert(fs[fs.len() - 1] == f);
        }
    }
}

proof fn lemma_events_flag_count(events: Seq<Event>, f: AmlFlag)
    ensures
        events_flag_count(events, f) <= total_flags(events),
        flag_occurrences(events, f).len() == events_flag_count(events, f),
        events_flag_count(events, f) == 0 <==> !flags_in_order(events).contains(f),
        flagged_count(events) <= events.len(),
    decreases events.len(),
{
    if events.len() > 0 {
        let before = events.drop_last();
        lemma_events_flag_count(before, f);
        lemma_flag_count(events.last().aml_flags@, f);
        lemma_add_new_flags(flags_in_order(before), events.last().aml_flags@, f);
    }
}

proof fn lemma_add_new_flags(seen: Seq<AmlFlag>, more: Seq<AmlFlag>, x: AmlFlag)
    ensures
        add_new_flags(seen, more).contains(x) <==> (seen.contains(x) || more.contains(x)),
    decreases more.len(),
{
    if more.len() > 0 {
        let s = add_new_flags(seen, more.drop_last());
        lemma_add_new_flags(seen, more.drop_last(), x);
        if more.drop_last().contains(x) {
            let i = choose|i: int| 0 <= i < more.drop_last().len() && more.drop_last()[i] == x;
            assert(more[i] == x);
        }
        if more.contains(x) && more.last() != x {
            let i = choose|i: int| 0 <= i < more.len() && more[i] == x;
            assert(more.drop_last()[i] == x);
        }
        if more.last() == x {
            assert(more[more.len() - 1] == x);
            if !s.contains(x) {
                assert(s.push(x)[s.len() as int] == x);
            }
        }
        if !s.contains(more.last()) {
            if s.contains(x) {
                let i = choose|i: int| 0 <= i < s.len() && s[i] == x;
                assert(s.push(more.last())[i] == x);
            }
            if s.push(more.last()).contains(x) && x != more.last() {
                let i = choose|i: int| 0 <= i < s.len() + 1 && s.push(more.last())[i] == x;
                assert(s[i] == x);
            }
        }
    }
}

/// No flag occurs twice.
pub open spec fn distinct_flags(s: Seq<AmlFlag>) -> bool {
    forall|i: int, j: int| 0 <= i < j < s.len() ==> s[i] != s[j]
}

proof fn lemma_add_new_flags_distinct(seen: Seq<AmlFlag>, more: Seq<AmlFlag>)
    requires
        distinct_flags(seen),
    ensures
        distinct_flags(add_new_flags(seen, more)),
    decreases more.len(),
{
    if more.len() > 0 {
        lemma_add_new_flags_distinct(seen, more.drop_last());
        let s = add_new_flags(seen, more.drop_last());
        if !s.contains(more.last()) {
            let t = s.push(more.last());
            assert forall|i: int, j: int| 0 <= i < j < t.len() implies t[i] != t[j] by {
                if j == s.len() {
                    assert(t[i] == s[i]);
                }
            }
        }
    }
}

proof fn lemma_flags_in_order_distinct(events: Seq<Event>)
    ensures
        distinct_flags(flags_in_order(events)),
    decreases events.len(),
{
    if events.len() > 0 {
        lemma_flags_in_order_distinct(events.drop_last());
        lemma_add_new_flags_distinct(flags_in_order(events.drop_last()), events.last().aml_flags@);
    }
}

proof fn lemma_same_events_push(a: Seq<Event>, b: Seq<Event>, x: Event, y: Event)
    requires
        same_events(a, b),
        x.same_as(&y),
    ensures
        same_events(a.push(x), b.push(y)),
{
    assert forall|i: int| 0 <= i < a.len() + 1 implies (#[trigger] a.push(x)[i]).same_as(&b.push(y)[i]) by {
        if i < a.len() {
            assert(a.push(x)[i] == a[i]);
            assert(b.push(y)[i] == b[i]);
        }
    }
}

/// Where a flag stands in a list of flags.
fn find_flag(keys: &Vec<AmlFlag>, f: AmlFlag) -> (r: Option<usize>)
    ensures
        match r {
            Some(k) => k < keys@.len() && keys@[k as int] == f,
            None => !keys@.contains(f),
        },
{
    let mut i: usize = 0;
    while i < keys.len()
        invariant
            i <= keys@.len(),
            forall|j: int| 0 <= j < i ==> keys@[j] != f,
        decreases keys@.len() - i,
    {
        if keys[i] == f {
            return Some(i);
        }
        i = i + 1;
    }
    None
}

/// Whether the flags of a list of events can be counted in a `usize`.
pub fn total_flags_fit(events: &Vec<Event>) -> (r: bool)
    ensures
        r == (total_flags(events@) <= usize::MAX),
{
    let mut total: usize = 0;
    let mut i: usize = 0;
    proof { assert(events@.subrange(0, 0) =~= Seq::<Event>::empty()); }
    while i < events.len()
        invariant
            i <= events@.len(),
            total == total_flags(events@.subrange(0, i as int)),
        decreases events@.len() - i,
    {
        proof {
            assert(events@.subrange(0, i as int + 1).drop_last() =~= events@.subrange(0, i as int));
            lemma_total_flags_grows(events@, i as int + 1);
        }
        let n = events[i].aml_flags.len();
        if n > usize::MAX - total {
            return false;
        }
        total = total + n;
        i = i + 1;
    }
    proof { assert(events@.subrange(0, events@.len() as int) =~= events@); }
    true
}

proof fn lemma_total_flags_grows(es: Seq<Event>, n: int)
    requires
        0 <= n <= es.len(),
    ensures
        total_flags(es.subrange(0, n)) <= total_flags(es),
    decreases es.len() - n,
{
    if n < es.len() {
        lemma_total_flags_grows(es, n + 1);
        assert(es.subrange(0, n + 1).drop_last() =~= es.subrange(0, n));
    } else {
        assert(es.subrange(0, n) =~= es);
    }
}

impl AmlReport {
    /// The summary of a list of events: how many there are, how many carry
    /// a flag, how often three of the flags occur, and for each flag that
    /// occurs the events that carry it.
    pub fn generate(events: &Vec<Event>) -> (r: AmlReport)
        requires
            total_flags(events@) <= usize::MAX,
        ensures
            r.summarizes(events@),
    {
        let ghost es = events@;
        let mut flagged: usize = 0;
        let mut large: usize = 0;
        let mut unusual: usize = 0;
        let mut high: usize = 0;
        let mut keys: Vec<AmlFlag> = Vec::new();
        let mut groups: Vec<FlagEvents> = Vec::new();
        let mut i: usize = 0;
        proof {
            assert(es.subrange(0, 0) =~= Seq::<Event>::empty());
        }
        while i < events.len()
            invariant
                es == events@,
                i <= es.len(),
                total_flags(es) <= usize::MAX,
                flagged == flagged_count(es.subrange(0, i as int)),
                large == events_flag_count(es.subrange(0, i as int), AmlFlag::LargeAmount),
                unusual == events_flag_count(es.subrange(0, i as int), AmlFlag::UnusualPattern),
                high == events_flag_count(es.subrange(0, i as int), AmlFlag::HighRiskCountry),
                keys@ == flags_in_order(es.subrange(0, i as int)),
                groups@.len() == keys@.len(),
                forall|k: int| 0 <= k < groups@.len() ==> {
                    &&& (#[trigger] groups@[k]).flag@ == aml_flag_text(keys@[k])
                    &&& same_events(groups@[k].events@, flag_occurrences(es.subrange(0, i as int), keys@[k]))
                },
            decreases es.len() - i,
        {
            let e = &events[i];
            let ghost before = es.subrange(0, i as int);
            let ghost fs = e.aml_flags@;
            proof {
                lemma_total_flags_prefix(es, i as int + 1);
                assert(es.subrange(0, i as int + 1).drop_last() == before);
                assert(es.subrange(0, i as int + 1).last() == *e);
                lemma_events_flag_count(before, AmlFlag::LargeAmount);
                lemma_events_flag_count(before, AmlFlag::UnusualPattern);
                lemma_events_flag_count(before, AmlFlag::HighRiskCountry);
                lemma_flags_in_order_distinct(before);
                assert(fs.subrange(0, 0) =~= Seq::<AmlFlag>::empty());
                assert forall|k: int| 0 <= k < groups@.len() implies
                    flag_occurrences(before, keys@[k]) + Seq::new(flag_count(fs.subrange(0, 0), keys@[k]), |n: int| *e)
                        == flag_occurrences(before, keys@[k]) by {
                    assert(flag_occurrences(before, keys@[k]) + Seq::new(0, |n: int| *e) =~= flag_occurrences(before, keys@[k]));
                }
            }
            if e.aml_flags.len() > 0 {
                proof { lemma_events_flag_count(before, AmlFlag::LargeAmount); }
                flagged = flagged + 1;
            }
            let mut j: usize = 0;
            while j < e.aml_flags.len()
                invariant
                    es == events@,
                    i < es.len(),
                    *e == es[i as int],
                    before == es.subrange(0, i as int),
                    fs == e.aml_flags@,
                    j <= fs.len(),
                    total_flags(before) + fs.len() <= usize::MAX,
                    large == events_flag_count(before, AmlFlag::LargeAmount) + flag_count(fs.subrange(0, j as int), AmlFlag::LargeAmount),
                    unusual == events_flag_count(before, AmlFlag::UnusualPattern) + flag_count(fs.subrange(0, j as int), AmlFlag::UnusualPattern),
                    high == events_flag_count(before, AmlFlag::HighRiskCountry) + flag_count(fs.subrange(0, j as int), AmlFlag::HighRiskCountry),
                    events_flag_count(before, AmlFlag::LargeAmount) <= total_flags(before),
                    events_flag_count(before, AmlFlag::UnusualPattern) <= total_flags(before),
                    events_flag_count(before, AmlFlag::HighRiskCountry) <= total_flags(before),
                    keys@ == add_new_flags(flags_in_order(before), fs.subrange(0, j as int)),
                    distinct_flags(flags_in_order(before)),
                    groups@.len() == keys@.len(),
                    forall|k: int| 0 <= k < groups@.len() ==> {
                        &&& (#[trigger] groups@[k]).flag@ == aml_flag_text(keys@[k])
                        &&& same_events(groups@[k].events@,
                            flag_occurrences(before, keys@[k]) + Seq::new(flag_count(fs.subrange(0, j as int), keys@[k]), |n: int| *e))
                    },
                decreases fs.len() - j,
            {
                let f = e.aml_flags[j];
                let ghost fj = fs.subrange(0, j as int);
                let ghost fj1 = fs.subrange(0, j as int + 1);
                proof {
                    assert(fj1.drop_last() == fj);
                    assert(fj1.last() == f);
                    lemma_flag_count(fj, AmlFlag::LargeAmount);
                    lemma_flag_count(fj, AmlFlag::UnusualPattern);
                    lemma_flag_count(fj, AmlFlag::HighRiskCountry);
                    lemma_add_new_flags_distinct(flags_in_order(before), fj);
                }
                match f {
                    AmlFlag::LargeAmount => { large = large + 1; },
                    AmlFlag::UnusualPattern => { unusual = unusual + 1; },
                    AmlFlag::HighRiskCountry => { high = high + 1; },
                    _ => {},
                }
                let ghost old_groups = groups@;
                let ghost old_keys = keys@;
                let k = match find_flag(&keys, f) {
                    Some(k) => k,
                    None => {
                        proof {
                            lemma_add_new_flags(flags_in_order(before), fj, f);
                            lemma_events_flag_count(before, f);
                            lemma_flag_count(fj, f);
                            assert(flag_occurrences(before, f) + Seq::new(flag_count(fj, f), |n: int| *e)
                                =~= Seq::<Event>::empty());
                        }
                        keys.push(f);
                        groups.push(FlagEvents { flag: f.as_str().to_string(), events: Vec::new() });
                        keys.len() - 1
                    },
                };
                let ghost mid_groups = groups@;
                let copy = e.duplicate();
                groups[k].events.push(copy);
                proof {
                    assert(keys@ == add_new_flags(flags_in_order(before), fj1));
                    assert forall|q: int| 0 <= q < groups@.len() implies {
                        &&& (#[trigger] groups@[q]).flag@ == aml_flag_text(keys@[q])
                        &&& same_events(groups@[q].events@,
                            flag_occurrences(before, keys@[q]) + Seq::new(flag_count(fj1, keys@[q]), |n: int| *e))
                    } by {
                        let g = keys@[q];
                        let occ = flag_occurrences(before, g);
                        if q == k as int {
                            assert(g == f);
                            assert(occ + Seq::new(flag_count(fj1, g), |n: int| *e)
                                =~= (occ + Seq::new(flag_count(fj, g), |n: int| *e)).push(*e));
                            lemma_same_events_push(mid_groups[q].events@, occ + Seq::new(flag_count(fj, g), |n: int| *e), copy, *e);
                        } else {
                            assert(g != f);
                            assert(groups@[q] == mid_groups[q]);
                        }
                    }
                }
                j = j + 1;
            }
            proof {
                let after = es.subrange(0, i as int + 1);
                assert(fs.subrange(0, fs.len() as int) == fs);
                assert(after.drop_last() == before);
                assert(after.last() == *e);
            }
            i = i + 1;
        }
        proof {
            assert(es.subrange(0, es.len() as int) == es);
        }
        AmlReport {
            total_events: events.len(),
            flagged_events: flagged,
            large_amount_count: large,
            unusual_pattern_count: unusual,
            high_risk_country_count: high,
            events_by_flag: groups,
        }
    }
}

proof fn lemma_total_flags_prefix(es: Seq<Event>, n: int)
    requires
        0 <= n <= es.len(),
    ensures
        total_flags(es.subrange(0, n)) <= total_flags(es),
    decreases es.len() - n,
{
    if n < es.len() {
        lemma_total_flags_prefix(es, n + 1);
        assert(es.subrange(0, n + 1).drop_last() == es.subrange(0, n));
    } else {
        assert(es.subrange(0, n) == es);
    }
}


/// The text of a scan's report; `share` is the percentage of flagged
/// events, a figure in floating point written by the caller.
pub open spec fn scan_summary_text(r: AmlReport, share: Seq<char>) -> Seq<char> {
    "AML Report:\n"@
    + "- Total events: "@ + decimal_digits(r.total_events as nat) + "\n"@
    + "- Flagged events: "@ + decimal_digits(r.flagged_events as nat) + " ("@ + share + "%)\n"@
    + "- Large amount: "@ + decimal_digits(r.large_amount_count as nat) + "\n"@
    + "- Unusual pattern: "@ + decimal_digits(r.unusual_pattern_count as nat) + "\n"@
    + "- High risk country: "@ + decimal_digits(r.high_risk_country_count as nat)
}

impl AmlReport {
    /// The report's text, the flagged share written by the caller.
    pub fn summary_with_share(&self, share: &str) -> (r: String)
        ensures
            r@ == scan_summary_text(*self, share@),
    {
        let mut s = String::from_str("AML Report:\n");
        s.append("- Total events: ");
        s.append(count_text(self.total_events).as_str());
        s.append("\n");
        s.append("- Flagged events: ");
        s.append(count_text(self.flagged_events).as_str());
        s.append(" (");
        s.append(share);
        s.append("%)\n");
        s.append("- Large amount: ");
        s.append(count_text(self.large_amount_count).as_str());
        s.append("\n");
        s.append("- Unusual pattern: ");
        s.append(count_text(self.unusual_pattern_count).as_str());
        s.append("\n");
        s.append("- High risk country: ");
        s.append(count_text(self.high_risk_country_count).as_str());
        s
    }
}

} // verus!
