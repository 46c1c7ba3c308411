//! Reading the event log back: which files a reader opens, and in what
//! order. A day's events stand in the file named by the date; a range of
//! days is walked from the first to the last; the whole log is every
//! `.jsonl` file of the directory, sorted by path.
use vstd::prelude::*;
use vstd::string::StrSliceExecFns;
use vstd::string::StringExecFns;
use crate::text::{concat_str, texts};
use super::persistence::PersistenceError;
use super::store::{is_event_file, is_event_file_name};

verus! {

broadcast use vstd::seq_lib::group_to_multiset_ensures;

/// Texts in the order of their characters' code points, a prefix first.
pub open spec fn text_le(a: Seq<char>, b: Seq<char>) -> bool
    decreases a.len(),
{
    if a.len() == 0 {
        true
    } else if b.len() == 0 {
        false
    } else if a[0] != b[0] {
        a[0] < b[0]
    } else {
        text_le(a.drop_first(), b.drop_first())
    }
}

/// A sequence of texts in that order.
pub open spec fn texts_sorted(s: Seq<Seq<char>>) -> bool {
    forall|i: int, j: int| 0 <= i < j < s.len() ==> text_le(#[trigger] s[i], #[trigger] s[j])
}

proof fn lemma_text_le_total(a: Seq<char>, b: Seq<char>)
    ensures
        text_le(a, b) || text_le(b, a),
    decreases a.len(),
{
    if a.len() > 0 && b.len() > 0 {
        if a[0] == b[0] {
            lemma_text_le_total(a.drop_first(), b.drop_first());
        }
    }
}

proof fn lemma_text_le_trans(a: Seq<char>, b: Seq<char>, c: Seq<char>)
    requires
        text_le(a, b),
        text_le(b, c),
    ensures
        text_le(a, c),
    decreases a.len(),
{
    if a.len() > 0 && b.len() > 0 && c.len() > 0 && a[0] == b[0] && b[0] == c[0] {
        lemma_text_le_trans(a.drop_first(), b.drop_first(), c.drop_first());
    }
}

/// Whether one text comes no later than another.
pub fn text_le_exec(a: &str, b: &str) -> (r: bool)
    ensures
        r == text_le(a@, b@),
{
    let na = a.unicode_len();
    let nb = b.unicode_len();
    let mut i: usize = 0;
    proof {
        assert(a@.skip(0) =~= a@);
        assert(b@.skip(0) =~= b@);
    }
    while i < na && i < nb
        invariant
            na == a@.len(),
            nb == b@.len(),
            i <= na,
            i <= nb,
            text_le(a@, b@) == text_le(a@.skip(i as int), b@.skip(i as int)),
        decreases na - i,
    {
        let ca = a.get_char(i);
        let cb = b.get_char(i);
        proof {
            assert(a@.skip(i as int)[0] == ca);
            assert(b@.skip(i as int)[0] == cb);
            assert(a@.skip(i as int).drop_first() =~= a@.skip(i + 1));
            assert(b@.skip(i as int).drop_first() =~= b@.skip(i + 1));
        }
        if ca != cb {
            return ca < cb;
        }
        i = i + 1;
    }
    i == na
}

/// Whether `x` comes no earlier than every text of `s[..k]` and no later
/// than every text of `s[k..]`: the place where inserting it keeps `s` sorted.
spec fn fits_at(s: Seq<Seq<char>>, k: int, x: Seq<char>) -> bool {
    &&& 0 <= k <= s.len()
    &&& forall|j: int| 0 <= j < k ==> text_le(#[trigger] s[j], x)
    &&& forall|j: int| k <= j < s.len() ==> text_le(x, #[trigger] s[j])
}

proof fn lemma_insert_sorted(s: Seq<Seq<char>>, k: int, x: Seq<char>)
    requires
        texts_sorted(s),
        fits_at(s, k, x),
    ensures
        texts_sorted(s.insert(k, x)),
{
    let t = s.insert(k, x);
    assert forall|i: int, j: int| 0 <= i < j < t.len() implies text_le(#[trigger] t[i], #[trigger] t[j]) by {
        if i < k && j < k {
        } else if i < k && j == k {
        } else if i < k {
            assert(t[j] == s[j - 1]);
        } else if i == k {
            assert(t[j] == s[j - 1]);
        } else {
            assert(t[i] == s[i - 1] && t[j] == s[j - 1]);
        }
    }
}

/// Where `x` goes in the sorted `v`: before the first text that comes after it.
fn insertion_point(v: &Vec<String>, x: &str) -> (k: usize)
    requires
        texts_sorted(texts(v@)),
    ensures
        fits_at(texts(v@), k as int, x@),
{
    let ghost s = texts(v@);
    let mut k: usize = 0;
    while k < v.len()
        invariant
            s == texts(v@),
            texts_sorted(s),
            k <= v.len(),
            forall|j: int| 0 <= j < k ==> text_le(#[trigger] s[j], x@),
        decreases v.len() - k,
    {
        if !text_le_exec(v[k].as_str(), x) {
            proof {
                assert(s[k as int] == v@[k as int]@);
                lemma_text_le_total(s[k as int], x@);
                assert forall|j: int| k <= j < s.len() implies text_le(x@, #[trigger] s[j]) by {
                    if j > k {
                        lemma_text_le_trans(x@, s[k as int], s[j]);
                    }
                }
            }
            return k;
        }
        k = k + 1;
    }
    k
}

/// The texts sorted, each kept as often as it came.
pub fn sort_texts(v: Vec<String>) -> (r: Vec<String>)
    ensures
        texts(r@).to_multiset() == texts(v@).to_multiset(),
        texts_sorted(texts(r@)),
{
    let mut out: Vec<String> = Vec::new();
    let mut i: usize = 0;
    while i < v.len()
        invariant
            i <= v.len(),
            texts(out@).to_multiset() == texts(v@.take(i as int)).to_multiset(),
            texts_sorted(texts(out@)),
        decreases v.len() - i,
    {
        let x = v[i].clone();
        let k = insertion_point(&out, x.as_str());
        let ghost before = out@;
        proof {
            lemma_insert_sorted(texts(before), k as int, x@);
            assert(texts(v@.take(i + 1)) =~= texts(v@.take(i as int)).push(x@));
        }
        out.insert(k, x);
        proof {
            assert(texts(out@) =~= texts(before).insert(k as int, x@));
        }
        i = i + 1;
    }
    proof {
        assert(v@.take(v@.len() as int) =~= v@);
    }
    out
}

/// `base` and `name` put together as `PathBuf::join` does for a relative
/// name: with a `/` between, unless `base` is empty or ends in one.
pub open spec fn joined(base: Seq<char>, name: Seq<char>) -> Seq<char> {
    if base.len() == 0 || base.last() == '/' {
        base + name
    } else {
        base + "/"@ + name
    }
}

/// The path of a file in a directory.
pub fn join_path(base: &str, name: &str) -> (r: String)
    ensures
        r@ == joined(base@, name@),
{
    proof { reveal_strlit("/"); }
    let n = base.unicode_len();
    if n == 0 || base.get_char(n - 1) == '/' {
        concat_str(base, name)
    } else {
        let mut s = String::from_str(base);
        s.append("/");
        s.append(name);
        s
    }
}

/// The paths in `base` of the names that are event files, in their order.
pub open spec fn event_paths(base: Seq<char>, names: Seq<Seq<char>>) -> Seq<Seq<char>>
    decreases names.len(),
{
    if names.len() == 0 {
        seq![]
    } else if is_event_file_name(names.last()) {
        event_paths(base, names.drop_last()).push(joined(base, names.last()))
    } else {
        event_paths(base, names.drop_last())
    }
}

/// What chrono's `NaiveDate::parse_from_str` with `%Y-%m-%d` makes of a
/// text: the day, counted as `Datelike::num_days_from_ce` counts (the first
/// of January of year 1 is day 1), or the message of its error.
pub uninterp spec fn ymd_parse(s: Seq<char>) -> Result<i32, Seq<char>>;

/// What chrono prints, with `%Y-%m-%d`, for a day counted from the common
/// era; none where chrono holds no such day.
pub uninterp spec fn ymd_text(day: i32) -> Option<Seq<char>>;

/// `chrono::NaiveDate::parse_from_str(s, "%Y-%m-%d")`, the date taken as its
/// day number; the result and the error's message are named.
#[verifier::external_body]
fn parse_ymd(s: &str) -> (r: Result<i32, String>)
    ensures
        match r {
            Ok(d) => ymd_parse(s@) == Ok::<i32, Seq<char>>(d),
            Err(e) => ymd_parse(s@) == Err::<i32, Seq<char>>(e@),
        },
{
    match chrono::NaiveDate::parse_from_str(s, "%Y-%m-%d") {
        Ok(d) => Ok(chrono::Datelike::num_days_from_ce(&d)),
        Err(e) => Err(e.to_string()),
    }
}

/// `NaiveDate::format(.., "%Y-%m-%d")` of the day `day`, after
/// `NaiveDate::from_num_days_from_ce_opt`; the result is named.
#[verifier::external_body]
fn format_ymd(day: i32) -> (r: Option<String>)
    ensures
        match r {
            Some(t) => ymd_text(day) == Some(t@),
            None => ymd_text(day) is None,
        },
{
    match chrono::NaiveDate::from_num_days_from_ce_opt(day) {
        Some(d) => Some(d.format("%Y-%m-%d").to_string()),
        None => None,
    }
}

/// The files of the days from `from` to `to` in `base`, one after the
/// other, each named by the date as chrono prints it; the walk ends early
/// at a day chrono cannot hold.
pub open spec fn day_files(base: Seq<char>, from: i32, to: i32) -> Seq<Seq<char>>
    decreases to - from,
{
    if from > to {
        seq![]
    } else {
        match ymd_text(from) {
            None => seq![],
            Some(t) => if from == to {
                seq![joined(base, t + ".jsonl"@)]
            } else {
                seq![joined(base, t + ".jsonl"@)] + day_files(base, (from + 1) as i32, to)
            },
        }
    }
}

/// The files of the days from the date `from` to the date `to` in `base`,
/// or the message of the error when a date does not parse.
pub open spec fn range_result(base: Seq<char>, from: Seq<char>, to: Seq<char>) -> Result<Seq<Seq<char>>, Seq<char>> {
    match ymd_parse(from) {
        Err(m) => Err("Invalid from date: "@ + m),
        Ok(f) => match ymd_parse(to) {
            Err(m) => Err("Invalid to date: "@ + m),
            Ok(t) => Ok(day_files(base, f, t)),
        },
    }
}

/// Reads back the events of a directory of day files.
pub struct EventReader {
    pub base_path: String,
}

impl EventReader {
    /// A reader of the files in `base_path`.
    pub fn new(base_path: &str) -> (r: EventReader)
        ensures
            r.base_path@ == base_path@,
    {
        EventReader { base_path: String::from_str(base_path) }
    }

    /// The file of a day's events.
    pub fn date_file(&self, date: &str) -> (r: String)
        ensures
            r@ == joined(self.base_path@, date@ + ".jsonl"@),
    {
        let name = concat_str(date, ".jsonl");
        join_path(self.base_path.as_str(), name.as_str())
    }

    /// The files of the days from `from` to `to`, both `YYYY-MM-DD`, in
    /// order of the days; `Other` with the parser's message where a date
    /// does not parse.
    pub fn range_files(&self, from: &str, to: &str) -> (r: Result<Vec<String>, PersistenceError>)
        ensures
            match range_result(self.base_path@, from@, to@) {
                Ok(paths) => r matches Ok(v) && texts(v@) == paths,
                Err(m) => r matches Err(PersistenceError::Other(e)) && e@ == m,
            },
    {
        let from_day = match parse_ymd(from) {
            Ok(d) => d,
            Err(e) => {
                return Err(PersistenceError::Other(concat_str("Invalid from date: ", e.as_str())));
            },
        };
        let to_day = match parse_ymd(to) {
            Ok(d) => d,
            Err(e) => {
                return Err(PersistenceError::Other(concat_str("Invalid to date: ", e.as_str())));
            },
        };
        let ghost base = self.base_path@;
        let mut out: Vec<String> = Vec::new();
        if from_day > to_day {
            return Ok(out);
        }
        let mut current: i32 = from_day;
        loop
            invariant
                from_day <= current <= to_day,
                base == self.base_path@,
                ymd_parse(from@) == Ok::<i32, Seq<char>>(from_day),
                ymd_parse(to@) == Ok::<i32, Seq<char>>(to_day),
                texts(out@) + day_files(base, current, to_day) == day_files(base, from_day, to_day),
            decreases to_day - current,
        {
            let text = match format_ymd(current) {
                Some(t) => t,
                None => {
                    proof {
                        assert(day_files(base, current, to_day) =~= seq![]);
                        assert(texts(out@) + seq![] =~= texts(out@));
                    }
                    return Ok(out);
                },
            };
            let path = self.date_file(text.as_str());
            out.push(path);
            proof {
                assert(texts(out@) =~= texts(out@.drop_last()).push(path@));
            }
            if current == to_day {
                proof {
                    assert(texts(out@) + seq![] =~= texts(out@.drop_last()) + day_files(base, current, to_day));
                }
                return Ok(out);
            }
            proof {
                let next = day_files(base, (current + 1) as i32, to_day);
                assert(texts(out@) + next =~= texts(out@.drop_last()) + day_files(base, current, to_day));
            }
            current = current + 1;
        }
    }

    /// The event files among the names of the directory's entries, as
    /// paths, sorted.
    pub fn event_files(&self, names: &Vec<String>) -> (r: Vec<String>)
        ensures
            texts(r@).to_multiset() == event_paths(self.base_path@, texts(names@)).to_multiset(),
            texts_sorted(texts(r@)),
    {
        let mut found: Vec<String> = Vec::new();
        let mut i: usize = 0;
        while i < names.len()
            invariant
                i <= names.len(),
                texts(found@) == event_paths(self.base_path@, texts(names@.take(i as int))),
            decreases names.len() - i,
        {
            let ghost prefix = texts(names@.take(i as int));
            proof {
                assert(texts(names@.take(i + 1)) =~= prefix.push(names@[i as int]@));
                assert(texts(names@.take(i + 1)).drop_last() =~= prefix);
            }
            if is_event_file(names[i].as_str()) {
                let p = join_path(self.base_path.as_str(), names[i].as_str());
                found.push(p);
                proof { assert(texts(found@) =~= texts(found@.drop_last()).push(p@)); }
            }
            i = i + 1;
        }
        proof { assert(names@.take(names@.len() as int) =~= names@); }
        sort_texts(found)
    }
}

} // verus!
