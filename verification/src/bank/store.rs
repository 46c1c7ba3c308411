//! The numbering and naming of the event log: event identifiers are
//! `EVT_` and a counter, and a new log continues after the highest counter
//! it finds; events are kept in one file per day.
use vstd::prelude::*;
use vstd::string::StrSliceExecFns;
use crate::text::{concat_str, decimal_digits, digit_char, str_eq, zero_padded, zeros};
use super::event::{event_id_text, Event};

verus! {

/// A decimal digit character.
pub open spec fn is_digit(c: char) -> bool {
    '0' <= c && c <= '9'
}

/// The value of a string of decimal digits.
pub open spec fn digits_value(s: Seq<char>) -> nat
    decreases s.len(),
{
    if s.len() == 0 {
        0
    } else {
        10 * digits_value(s.drop_last()) + ((s.last() as u32) - ('0' as u32)) as nat
    }
}

/// The text after an optional leading `+`.
pub open spec fn unsigned_text(s: Seq<char>) -> Seq<char> {
    if s.len() > 0 && s[0] == '+' { s.drop_first() } else { s }
}

/// One or more decimal digits.
pub open spec fn all_digits(t: Seq<char>) -> bool {
    t.len() > 0 && forall|i: int| 0 <= i < t.len() ==> is_digit(#[trigger] t[i])
}

/// What `u64::from_str` accepts: an optional `+` followed by one or more
/// decimal digits whose value fits in 64 bits.
pub open spec fn parsed_u64(s: Seq<char>) -> Option<nat> {
    if all_digits(unsigned_text(s)) && digits_value(unsigned_text(s)) <= u64::MAX {
        Some(digits_value(unsigned_text(s)))
    } else {
        None
    }
}

proof fn lemma_digits_monotone(t: Seq<char>, i: int, j: int)
    requires
        0 <= i <= j <= t.len(),
        forall|k: int| 0 <= k < t.len() ==> is_digit(#[trigger] t[k]),
    ensures
        digits_value(t.subrange(0, i)) <= digits_value(t.subrange(0, j)),
    decreases j - i,
{
    if i < j {
        lemma_digits_monotone(t, i, j - 1);
        assert(t.subrange(0, j).drop_last() == t.subrange(0, j - 1));
        assert(is_digit(t[j - 1]));
    }
}

/// Parses a number as `u64::from_str` does.
pub fn parse_u64(s: &str) -> (r: Option<u64>)
    ensures
        match r {
            Some(v) => parsed_u64(s@) == Some(v as nat),
            None => parsed_u64(s@) is None,
        },
{
    let n = s.unicode_len();
    let ghost sv = s@;
    let mut start: usize = 0;
    if n > 0 && s.get_char(0) == '+' {
        start = 1;
    }
    let ghost t = unsigned_text(sv);
    proof {
        assert(t =~= sv.subrange(start as int, sv.len() as int));
    }
    if start >= n {
        return None;
    }
    let mut v: u64 = 0;
    let mut i: usize = start;
    while i < n
        invariant
            n == sv.len(),
            sv == s@,
            start <= i <= n,
            start < n,
            t == sv.subrange(start as int, n as int),
            t == unsigned_text(sv),
            forall|k: int| 0 <= k < i - start ==> is_digit(#[trigger] t[k]),
            v as nat == digits_value(t.subrange(0, i - start)),
        decreases n - i,
    {
        let c = s.get_char(i);
        let ghost k = i - start;
        assert(t[k] == c);
        if !('0' <= c && c <= '9') {
            proof { assert(!is_digit(t[k as int])); }
            return None;
        }
        let d = (c as u32 - '0' as u32) as u64;
        assert(t.subrange(0, k + 1).drop_last() == t.subrange(0, k));
        assert(t.subrange(0, k + 1).last() == c);
        assert(digits_value(t.subrange(0, k + 1)) == 10 * digits_value(t.subrange(0, k)) + d);
        match v.checked_mul(10) {
            Some(v10) => match v10.checked_add(d) {
                Some(w) => {
                    v = w;
                },
                None => {
                    proof { lemma_no_fit(t, k + 1); }
                    return None;
                },
            },
            None => {
                proof { lemma_no_fit(t, k + 1); }
                return None;
            },
        }
        i = i + 1;
    }
    assert(t.subrange(0, n - start) == t);
    Some(v)
}

/// When a prefix of a string of decimal digits is too large, so is the
/// whole, or the string is not all digits.
proof fn lemma_no_fit(t: Seq<char>, j: int)
    requires
        0 < j <= t.len(),
        forall|k: int| 0 <= k < j ==> is_digit(#[trigger] t[k]),
        digits_value(t.subrange(0, j)) > u64::MAX,
    ensures
        !(forall|k: int| 0 <= k < t.len() ==> is_digit(#[trigger] t[k])) || digits_value(t) > u64::MAX,
{
    if forall|k: int| 0 <= k < t.len() ==> is_digit(#[trigger] t[k]) {
        lemma_digits_monotone(t, j, t.len() as int);
        assert(t.subrange(0, t.len() as int) == t);
    }
}

/// The counter of an event identifier, for identifiers `EVT_<number>`.
pub open spec fn event_number_of(id: Seq<char>) -> Option<nat> {
    if id.len() >= 4 && id.subrange(0, 4) == "EVT_"@ {
        parsed_u64(id.subrange(4, id.len() as int))
    } else {
        None
    }
}

/// The counter of an event identifier: what follows `EVT_`, read as a
/// number; none when the identifier has another form.
pub fn event_number(id: &str) -> (r: Option<u64>)
    ensures
        match r {
            Some(v) => event_number_of(id@) == Some(v as nat),
            None => event_number_of(id@) is None,
        },
{
    proof { reveal_strlit("EVT_"); }
    let n = id.unicode_len();
    if n < 4 {
        return None;
    }
    let head = id.substring_char(0, 4);
    if !str_eq(head, "EVT_") {
        return None;
    }
    parse_u64(id.substring_char(4, n))
}

/// The highest counter among identifiers, zero when none has one.
pub open spec fn max_event_number(ids: Seq<Seq<char>>) -> nat
    decreases ids.len(),
{
    if ids.len() == 0 {
        0
    } else {
        let rest = max_event_number(ids.drop_last());
        match event_number_of(ids.last()) {
            Some(v) => if v > rest { v } else { rest },
            None => rest,
        }
    }
}

/// The texts of a list of strings.
pub open spec fn id_texts(ids: Seq<String>) -> Seq<Seq<char>> {
    ids.map_values(|s: String| s@)
}

/// The counter a log continues from, given the identifiers of the events
/// it holds: one more than the highest counter found.
pub fn next_counter(ids: &Vec<String>) -> (r: u64)
    requires
        max_event_number(id_texts(ids@)) < u64::MAX,
    ensures
        r == max_event_number(id_texts(ids@)) + 1,
{
    let ghost all = id_texts(ids@);
    let mut max_id: u64 = 0;
    let mut i: usize = 0;
    while i < ids.len()
        invariant
            i <= ids@.len(),
            all == id_texts(ids@),
            max_event_number(all) < u64::MAX,
            max_id == max_event_number(all.subrange(0, i as int)),
        decreases ids@.len() - i,
    {
        assert(all.subrange(0, i as int + 1).drop_last() == all.subrange(0, i as int));
        assert(all.subrange(0, i as int + 1).last() == ids@[i as int]@);
        match event_number(ids[i].as_str()) {
            Some(num) => {
                if num > max_id {
                    max_id = num;
                }
            },
            None => {},
        }
        i = i + 1;
    }
    assert(all.subrange(0, ids@.len() as int) == all);
    max_id + 1
}

/// The source of event identifiers.
#[derive(Debug)]
pub struct EventIds {
    next: u64,
}

impl EventIds {
    /// The counter the next identifier takes.
    pub closed spec fn counter(&self) -> u64 {
        self.next
    }

    /// Identifiers from a counter on.
    pub fn starting_at(next: u64) -> (r: EventIds)
        ensures
            r.counter() == next,
    {
        EventIds { next }
    }

    /// The next identifier, `EVT_` and the counter on six digits; the
    /// counter moves on by one, wrapping at the top as an atomic counter does.
    pub fn next_event_id(&mut self) -> (r: String)
        ensures
            r@ == event_id_text(old(self).counter() as nat),
            final(self).counter() == (if old(self).counter() == u64::MAX { 0 } else { old(self).counter() + 1 }),
    {
        let id = Event::generate_id(self.next);
        self.next = self.next.wrapping_add(1);
        id
    }
}

/// The name of the file of a day's events: the date and `.jsonl`.
pub fn event_file_name(date: &str) -> (r: String)
    ensures
        r@ == date@ + ".jsonl"@,
{
    concat_str(date, ".jsonl")
}

/// A file holds events when its name has the extension `jsonl`: it ends
/// in `.jsonl` with something before (`.jsonl` alone has no extension).
pub open spec fn is_event_file_name(name: Seq<char>) -> bool {
    &&& name.len() > 6
    &&& name.subrange(name.len() - 6, name.len() as int) == ".jsonl"@
}

/// Whether a file, by its name, holds events.
pub fn is_event_file(name: &str) -> (r: bool)
    ensures
        r == is_event_file_name(name@),
{
    proof { reveal_strlit(".jsonl"); }
    let n = name.unicode_len();
    if n <= 6 {
        return false;
    }
    let suffix = ".jsonl";
    let mut i: usize = 0;
    while i < 6
        invariant
            n == name@.len(),
            n > 6,
            suffix@ == ".jsonl"@,
            suffix@.len() == 6,
            i <= 6,
            forall|k: int| 0 <= k < i ==> name@[n - 6 + k] == suffix@[k],
        decreases 6 - i,
    {
        if name.get_char(n - 6 + i) != suffix.get_char(i) {
            proof { assert(name@.subrange(n - 6, n as int)[i as int] != ".jsonl"@[i as int]); }
            return false;
        }
        i = i + 1;
    }
    proof { assert(name@.subrange(n - 6, n as int) =~= ".jsonl"@); }
    true
}

/// Whether the store must open another file for an event of a day: when
/// no file is open, or the open one is of another day.
pub fn needs_new_file(open_date: Option<&str>, date: &str) -> (r: bool)
    ensures
        r == match open_date {
            Some(d) => d@ != date@,
            None => true,
        },
{
    match open_date {
        Some(d) => !str_eq(d, date),
        None => true,
    }
}

proof fn lemma_digit_char_value(m: nat)
    requires
        m < 10,
    ensures
        is_digit(digit_char(m)),
        ((digit_char(m) as u32) - ('0' as u32)) as nat == m,
{
    assert('0' as u32 == 48 && '1' as u32 == 49 && '2' as u32 == 50 && '3' as u32 == 51 && '4' as u32 == 52
        && '5' as u32 == 53 && '6' as u32 == 54 && '7' as u32 == 55 && '8' as u32 == 56 && '9' as u32 == 57);
}

proof fn lemma_decimal_digits_value(n: nat)
    ensures
        forall|i: int| 0 <= i < decimal_digits(n).len() ==> is_digit(#[trigger] decimal_digits(n)[i]),
        decimal_digits(n).len() > 0,
        digits_value(decimal_digits(n)) == n,
    decreases n,
{
    lemma_digit_char_value(n % 10);
    let d = decimal_digits(n);
    if n < 10 {
        assert(d.drop_last() =~= Seq::<char>::empty());
        assert(d.last() == digit_char(n));
        assert(n % 10 == n);
        assert(digits_value(d) == 10 * digits_value(d.drop_last()) + ((d.last() as u32) - ('0' as u32)) as nat);
        assert(digits_value(d) == n);
    } else {
        lemma_decimal_digits_value(n / 10);
        assert(d.drop_last() == decimal_digits(n / 10));
        assert(d.last() == digit_char(n % 10));
        assert(10 * (n / 10) + n % 10 == n);
        assert(digits_value(d) == 10 * digits_value(d.drop_last()) + ((d.last() as u32) - ('0' as u32)) as nat);
        assert(digits_value(d) == 10 * (n / 10) + n % 10);
        assert forall|i: int| 0 <= i < d.len() implies is_digit(#[trigger] d[i]) by {
            if i < d.len() - 1 {
                assert(d[i] == decimal_digits(n / 10)[i]);
            }
        }
    }
}

proof fn lemma_zeros_value(k: nat)
    ensures
        digits_value(zeros(k)) == 0,
    decreases k,
{
    if k > 0 {
        assert(zeros(k).drop_last() =~= zeros((k - 1) as nat));
        lemma_zeros_value((k - 1) as nat);
    }
}

proof fn lemma_leading_zeros_value(k: nat, d: Seq<char>)
    ensures
        digits_value(zeros(k) + d) == digits_value(d),
    decreases d.len(),
{
    if d.len() == 0 {
        assert(zeros(k) + d =~= zeros(k));
        lemma_zeros_value(k);
    } else {
        assert((zeros(k) + d).drop_last() =~= zeros(k) + d.drop_last());
        lemma_leading_zeros_value(k, d.drop_last());
    }
}

/// The counter of an identifier the store hands out is the counter it was
/// made from: a log read back continues after the identifiers it wrote.
pub proof fn lemma_event_id_round_trip(counter: u64)
    ensures
        event_number_of(event_id_text(counter as nat)) == Some(counter as nat),
{
    let n = counter as nat;
    let d = decimal_digits(n);
    let p = zero_padded(n, 6);
    lemma_decimal_digits_value(n);
    if d.len() < 6 {
        lemma_leading_zeros_value((6 - d.len()) as nat, d);
        assert forall|i: int| 0 <= i < p.len() implies is_digit(#[trigger] p[i]) by {
            if i >= 6 - d.len() {
                assert(p[i] == d[i - (6 - d.len())]);
            }
        }
    }
    reveal_strlit("EVT_");
    let id = event_id_text(n);
    assert(id.subrange(0, 4) =~= "EVT_"@);
    assert(id.subrange(4, id.len() as int) =~= p);
    assert(p[0] != '+') by {
        assert(is_digit(p[0]));
    }
    assert(unsigned_text(p) == p);
}

/// Every counter found among identifiers is at most the highest one.
pub proof fn lemma_max_event_number_bounds(ids: Seq<Seq<char>>)
    ensures
        forall|i: int| 0 <= i < ids.len() ==> ((#[trigger] event_number_of(ids[i])) matches Some(v)
            ==> v <= max_event_number(ids)),
    decreases ids.len(),
{
    if ids.len() > 0 {
        lemma_max_event_number_bounds(ids.drop_last());
        assert forall|i: int| 0 <= i < ids.len() implies ((#[trigger] event_number_of(ids[i])) matches Some(v)
            ==> v <= max_event_number(ids)) by {
            if i < ids.len() - 1 {
                assert(ids[i] == ids.drop_last()[i]);
            }
        }
    }
}

/// A log that continues after the highest counter it holds hands out no
/// identifier it already holds: every counter above that highest one makes
/// an identifier that is not among them.
pub proof fn lemma_fresh_ids(ids: Seq<Seq<char>>, counter: u64)
    requires
        counter > max_event_number(ids),
    ensures
        !ids.contains(event_id_text(counter as nat)),
{
    lemma_event_id_round_trip(counter);
    lemma_max_event_number_bounds(ids);
    if ids.contains(event_id_text(counter as nat)) {
        let i = choose|i: int| 0 <= i < ids.len() && ids[i] == event_id_text(counter as nat);
        assert(event_number_of(ids[i]) == Some(counter as nat));
    }
}

} // verus!
